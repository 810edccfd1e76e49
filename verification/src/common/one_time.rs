//! One response, relayed and then done with.
//!
//! A `OneTime` collects what has arrived of a response and decides whether
//! more is to be read; whoever runs it reads, forwards and reports.

use crate::common::http_conn::connection::ConnectionType;
use crate::common::http_conn::headers;
use crate::common::http_conn::parser::completeness;
use crate::common::http_conn::parser::head;
use crate::common::http_conn::parser::message;
use crate::common::http_conn::parser::response;
use crate::common::http_conn::parser::written;
use crate::common::http_conn::types;
use crate::common::http_conn::types::{HttpResponse, HttpResponseView};
use crate::common::HttpResponseParser;
use crate::numbers;
use crate::text;
use http::HeaderMap;
use vstd::prelude::*;

verus! {

/// How long the first bytes of a response are waited for, in seconds.
pub const FIRST_WAIT: u64 = 30;

/// How long further bytes are waited for, in seconds.
pub const MORE_WAIT: u64 = 5;

/// The end of the tunnel at which a response is relayed. Both read until the
/// declared body has arrived; they differ in what the first bytes have to show.
#[derive(Debug, Clone, Copy, PartialEq, Eq, Structural)]
pub enum Side {
    /// From the tunnel to the visitor.
    Server,
    /// From the backend to the tunnel.
    Client,
}

/// What is known of where a response ends.
#[derive(Debug, Clone, Copy, PartialEq, Eq, Structural)]
pub struct Framing {
    pub content_length: Option<usize>,
    pub chunked: bool,
    /// Where the body begins; zero where that is not known.
    pub headers_end: usize,
}

// ---------------------------------------------------------------------------
// Framing
// ---------------------------------------------------------------------------

/// The length that the fields declare.
pub open spec fn field_length(fields: Seq<(Seq<char>, Seq<u8>)>) -> Option<int> {
    match headers::lookup(fields, "content-length"@) {
        Some(v) => if headers::is_visible(v) {
            numbers::parse_unsigned(headers::ascii_text(v), usize::MAX as int)
        } else {
            None
        },
        None => None,
    }
}

/// Where the text of the bytes shows that the body begins.
pub open spec fn visible_body_start(buf: Seq<u8>) -> Option<int> {
    if vstd::utf8::valid_utf8(buf) {
        match text::find(buf, completeness::head_end_mark()) {
            Some(pos) => Some(pos + 4),
            None => None,
        }
    } else {
        None
    }
}

/// Where the body of the response begins within the bytes that it was read
/// from.
pub open spec fn body_start(res: HttpResponseView, buf: Seq<u8>) -> Option<int> {
    match res.body {
        Some(b) => Some(buf.len() - b.len()),
        None => None,
    }
}

/// A position, or zero.
pub open spec fn or_zero(pos: Option<int>) -> int {
    match pos {
        Some(p) => p,
        None => 0,
    }
}

/// The framing is this one.
pub open spec fn framing_is(
    f: Framing,
    content_length: Option<int>,
    chunked: bool,
    headers_end: int,
) -> bool {
    &&& match f.content_length {
        Some(n) => content_length == Some(n as int),
        None => content_length is None,
    }
    &&& f.chunked == chunked
    &&& f.headers_end == headers_end
}

/// What is known of where a response ends, from its first bytes.
pub open spec fn is_framing(
    side: Side,
    res: Option<HttpResponseView>,
    buf: Seq<u8>,
    f: Framing,
) -> bool {
    match res {
        None => framing_is(f, None, false, 0),
        Some(r) => framing_is(
            f,
            field_length(r.headers),
            headers::mentions(r.headers, "transfer-encoding"@, "chunked"@),
            match side {
                Side::Server => if body_start(r, buf) is Some {
                    or_zero(body_start(r, buf))
                } else {
                    or_zero(visible_body_start(buf))
                },
                Side::Client => if field_length(r.headers) is Some && visible_body_start(
                    buf,
                ) is Some {
                    or_zero(visible_body_start(buf))
                } else {
                    or_zero(body_start(r, buf))
                },
            },
        ),
    }
}

/// The length that the header fields declare.
pub fn find_field_length(map: &HeaderMap) -> (r: Option<usize>)
    ensures
        match r {
            Some(n) => field_length(headers::header_fields(*map)) == Some(n as int),
            None => field_length(headers::header_fields(*map)) is None,
        },
{
    proof {
        headers::lemma_known_names();
    }
    match headers::get_header(map, "content-length") {
        Some(v) => match headers::value_text(v) {
            Some(s) => {
                let cs = text::chars_of(s);
                match numbers::parse_number(cs.as_slice(), usize::MAX as u64) {
                    Some(n) => Some(n as usize),
                    None => None,
                }
            },
            None => None,
        },
        None => None,
    }
}

fn find_visible_body_start(buf: &[u8]) -> (r: Option<usize>)
    ensures
        match r {
            Some(n) => visible_body_start(buf@) == Some(n as int) && 4 <= n <= buf@.len(),
            None => visible_body_start(buf@) is None,
        },
{
    proof {
        text::lemma_find_from(buf@, completeness::head_end_mark(), 0);
    }
    if text::utf8_text(buf).is_none() {
        return None;
    }
    let len: usize = buf.len();
    match completeness::find_head_end(buf) {
        Some(pos) => {
            assert(pos + 4 <= len);
            Some(pos + 4)
        },
        None => None,
    }
}

/// Finds out what is known of where a response ends, from its first bytes and
/// from what they were parsed as.
pub fn frame(side: Side, res: Option<&HttpResponse>, buf: &[u8]) -> (r: Framing)
    requires
        res matches Some(res) ==> (types::body_view(res.body) matches Some(b) ==> b.len()
            <= buf@.len()),
    ensures
        is_framing(
            side,
            match res {
                Some(res) => Some(res@),
                None => None,
            },
            buf@,
            r,
        ),
        r.headers_end <= buf@.len(),
{
    match res {
        None => Framing { content_length: None, chunked: false, headers_end: 0 },
        Some(res) => {
            proof {
                headers::lemma_known_names();
            }
            let chunked = headers::header_mentions(&res.headers, "transfer-encoding", "chunked");
            let content_length = find_field_length(&res.headers);
            let visible = find_visible_body_start(buf);
            let parsed: Option<usize> = match &res.body {
                Some(b) => Some(buf.len() - b.len()),
                None => None,
            };
            let chosen: Option<usize> = match side {
                Side::Server => if parsed.is_some() {
                    parsed
                } else {
                    visible
                },
                Side::Client => if content_length.is_some() && visible.is_some() {
                    visible
                } else {
                    parsed
                },
            };
            let headers_end: usize = match chosen {
                Some(p) => p,
                None => 0,
            };
            Framing { content_length, chunked, headers_end }
        },
    }
}

// ---------------------------------------------------------------------------
// Whether to read on
// ---------------------------------------------------------------------------

/// The declared end of the response has arrived.
pub open spec fn end_has_arrived(f: Framing, buf: Seq<u8>) -> bool {
    match f.content_length {
        Some(n) => f.headers_end > 0 && buf.len() - f.headers_end >= n,
        None => f.chunked && text::contains(buf, completeness::last_chunk_mark()),
    }
}

/// The response declares an end that has not arrived.
pub open spec fn end_is_missing(f: Framing, buf: Seq<u8>) -> bool {
    match f.content_length {
        Some(n) => f.headers_end > 0 && buf.len() - f.headers_end < n,
        None => f.chunked && !text::contains(buf, completeness::last_chunk_mark()),
    }
}

/// The server reads on after the first bytes where the declared end is missing
/// or the response keeps the connection alive.
pub open spec fn server_reads_on(f: Framing, keep_alive: bool, buf: Seq<u8>) -> bool {
    end_is_missing(f, buf) || keep_alive
}

/// The client reads on after the first bytes where the declared end has not
/// arrived; where nothing is declared, or the declared length cannot be held
/// against a visible head, where the response is not complete as a whole.
pub open spec fn client_reads_on(f: Framing, complete: bool, buf: Seq<u8>) -> bool {
    match f.content_length {
        Some(n) => match visible_body_start(buf) {
            Some(start) => buf.len() - start < n,
            None => !complete,
        },
        None => if f.chunked {
            !text::contains(buf, completeness::last_chunk_mark())
        } else {
            !complete
        },
    }
}

/// Whether the declared end of the response has arrived.
pub fn has_end_arrived(f: &Framing, buf: &[u8]) -> (r: bool)
    requires
        f.headers_end <= buf@.len(),
    ensures
        r == end_has_arrived(*f, buf@),
{
    match f.content_length {
        Some(n) => f.headers_end > 0 && buf.len() - f.headers_end >= n,
        None => f.chunked && completeness::has_last_chunk(buf),
    }
}

/// Whether the server reads on after the first bytes.
pub fn server_must_read_on(f: &Framing, keep_alive: bool, buf: &[u8]) -> (r: bool)
    requires
        f.headers_end <= buf@.len(),
    ensures
        r == server_reads_on(*f, keep_alive, buf@),
{
    let need_more = match f.content_length {
        Some(n) => f.headers_end > 0 && buf.len() - f.headers_end < n,
        None => f.chunked && !completeness::has_last_chunk(buf),
    };
    need_more || keep_alive
}

/// Whether the client reads on after the first bytes.
pub fn client_must_read_on(f: &Framing, complete: bool, buf: &[u8]) -> (r: bool)
    requires
        f.headers_end <= buf@.len(),
    ensures
        r == client_reads_on(*f, complete, buf@),
{
    match f.content_length {
        Some(n) => match find_visible_body_start(buf) {
            Some(start) => buf.len() - start < n,
            None => !complete,
        },
        None => if f.chunked {
            !completeness::has_last_chunk(buf)
        } else {
            !complete
        },
    }
}

// ---------------------------------------------------------------------------
// The exchange
// ---------------------------------------------------------------------------

/// What an exchange is doing.
#[derive(Debug, Clone, Copy, PartialEq, Eq, Structural)]
pub enum Stage {
    /// Waiting for the first bytes.
    First,
    /// Forwarding the first bytes.
    ForwardingFirst,
    /// Waiting for more.
    More,
    /// Forwarding what came.
    ForwardingMore,
    /// Over.
    Over,
}

/// What to do next.
#[derive(Debug, Clone, Copy, PartialEq, Eq, Structural)]
pub enum OneTimeAction {
    /// Wait so many seconds for bytes of the response.
    Read(u64),
    /// Forward the bytes just read and flush.
    Forward,
    /// Shut both connections down.
    Close,
    /// Leave at once.
    Abandon,
    /// Nothing: what was reported does not belong here.
    Ignore,
}

/// What was reported.
#[derive(Debug, Clone, Copy, PartialEq, Eq, Structural)]
pub enum OneTimeEvent {
    /// Nothing came: the end, an error or too long a wait.
    ReadEnded,
    Forwarded,
    ForwardFailed,
}

/// A response on its way.
#[derive(Debug)]
pub struct OneTime {
    pub side: Side,
    pub stage: Stage,
    /// What has arrived.
    pub buf: Vec<u8>,
    pub framing: Framing,
}

/// What the first bytes decide: whether to read on.
pub open spec fn reads_on_after_first(side: Side, f: Framing, buf: Seq<u8>) -> bool {
    match side {
        Side::Server => server_reads_on(
            f,
            response::begun_response(buf) matches Some(res) && res.connection_type
                == ConnectionType::KeepAlive,
            buf,
        ),
        Side::Client => client_reads_on(f, completeness::response_complete(buf), buf),
    }
}

impl OneTime {
    /// Where the body begins lies within what has arrived.
    pub open spec fn wf(self) -> bool {
        self.framing.headers_end <= self.buf@.len()
    }

    /// An exchange that waits for the first bytes.
    pub open spec fn is_new(self, side: Side) -> bool {
        &&& self.side == side
        &&& self.stage == Stage::First
        &&& self.buf@ == Seq::<u8>::empty()
        &&& framing_is(self.framing, None, false, 0)
    }

    /// An exchange that waits for the first bytes.
    pub fn new(side: Side) -> (r: OneTime)
        ensures
            r.wf(),
            r.side == side,
            r.stage == Stage::First,
            r.buf@ == Seq::<u8>::empty(),
            framing_is(r.framing, None, false, 0),
            r.is_new(side),
    {
        OneTime {
            side,
            stage: Stage::First,
            buf: Vec::new(),
            framing: Framing { content_length: None, chunked: false, headers_end: 0 },
        }
    }

    /// What an exchange begins with.
    pub open spec fn first_action(self) -> OneTimeAction {
        OneTimeAction::Read(FIRST_WAIT)
    }

    /// What bytes that were read are answered with.
    pub open spec fn answer_to_bytes(self) -> OneTimeAction {
        if self.is_reading() {
            OneTimeAction::Forward
        } else {
            OneTimeAction::Ignore
        }
    }

    /// What to do at the start.
    pub fn begin(&self) -> (r: OneTimeAction)
        requires
            self.stage == Stage::First,
        ensures
            r == OneTimeAction::Read(FIRST_WAIT),
            r == self.first_action(),
    {
        OneTimeAction::Read(FIRST_WAIT)
    }

    /// The exchange waits for bytes of the response.
    pub open spec fn is_reading(self) -> bool {
        self.stage == Stage::First || self.stage == Stage::More
    }

    /// The exchange forwards what came of the response.
    pub open spec fn is_forwarding(self) -> bool {
        self.stage == Stage::ForwardingFirst || self.stage == Stage::ForwardingMore
    }

    /// The exchange became another by taking bytes. Where it does not wait for
    /// any, nothing changes.
    pub open spec fn takes(self, data: Seq<u8>, after: OneTime) -> bool {
        &&& after.side == self.side
        &&& after.framing == self.framing
        &&& after.buf@ == (if self.is_reading() {
            self.buf@ + data
        } else {
            self.buf@
        })
        &&& after.stage == (match self.stage {
            Stage::First => Stage::ForwardingFirst,
            Stage::More => Stage::ForwardingMore,
            other => other,
        })
    }

    /// The exchange became another by taking note of a report, which gave this
    /// action. The framing is known once the first bytes were forwarded.
    pub open spec fn notes(
        self,
        event: OneTimeEvent,
        after: OneTime,
        action: OneTimeAction,
    ) -> bool {
        &&& after.side == self.side
        &&& after.buf@ == self.buf@
        &&& if self.stage == Stage::ForwardingFirst && event == OneTimeEvent::Forwarded {
            is_framing(self.side, response::begun_response(self.buf@), self.buf@, after.framing)
        } else {
            after.framing == self.framing
        }
        &&& (after.stage, action) == OneTime::next(
            self.stage,
            event,
            reads_on_after_first(self.side, after.framing, self.buf@),
            end_has_arrived(after.framing, self.buf@),
        )
    }

    /// Takes bytes that were read.
    pub fn read(&mut self, data: &[u8]) -> (r: OneTimeAction)
        requires
            old(self).wf(),
            old(self).buf@.len() + data@.len() <= usize::MAX / 4,
            data@.len() > 0,
        ensures
            final(self).wf(),
            old(self).takes(data@, *final(self)),
            r == (if old(self).is_reading() {
                OneTimeAction::Forward
            } else {
                OneTimeAction::Ignore
            }),
            r == old(self).answer_to_bytes(),
    {
        match self.stage {
            Stage::First => {
                self.buf.extend_from_slice(data);
                self.stage = Stage::ForwardingFirst;
                assert(self.buf@ =~= old(self).buf@ + data@);
                OneTimeAction::Forward
            },
            Stage::More => {
                self.buf.extend_from_slice(data);
                self.stage = Stage::ForwardingMore;
                assert(self.buf@ =~= old(self).buf@ + data@);
                OneTimeAction::Forward
            },
            _ => OneTimeAction::Ignore,
        }
    }

    /// The stage and the action that follow a report, where `reads_on` tells
    /// whether the first bytes ask for more and `ended` whether the declared
    /// end has arrived.
    pub open spec fn next(
        stage: Stage,
        event: OneTimeEvent,
        reads_on: bool,
        ended: bool,
    ) -> (Stage, OneTimeAction) {
        match (stage, event) {
            (Stage::First, OneTimeEvent::ReadEnded) => (Stage::Over, OneTimeAction::Close),
            (Stage::More, OneTimeEvent::ReadEnded) => (Stage::Over, OneTimeAction::Close),
            (Stage::ForwardingFirst, OneTimeEvent::ForwardFailed) => (
                Stage::Over,
                OneTimeAction::Abandon,
            ),
            (Stage::ForwardingFirst, OneTimeEvent::Forwarded) => if reads_on {
                (Stage::More, OneTimeAction::Read(MORE_WAIT))
            } else {
                (Stage::Over, OneTimeAction::Close)
            },
            (Stage::ForwardingMore, OneTimeEvent::ForwardFailed) => (
                Stage::Over,
                OneTimeAction::Close,
            ),
            (Stage::ForwardingMore, OneTimeEvent::Forwarded) => if ended {
                (Stage::Over, OneTimeAction::Close)
            } else {
                (Stage::More, OneTimeAction::Read(MORE_WAIT))
            },
            _ => (stage, OneTimeAction::Ignore),
        }
    }

    /// Takes note of a report.
    pub fn step(&mut self, event: OneTimeEvent) -> (r: OneTimeAction)
        requires
            old(self).wf(),
            old(self).buf@.len() <= usize::MAX / 4,
        ensures
            final(self).wf(),
            old(self).notes(event, *final(self), r),
            old(self).stage == Stage::ForwardingFirst && event == OneTimeEvent::Forwarded ==>
                forall|res: HttpResponseView| #[trigger]
                response::is_plain_response(res) && old(self).buf@ == response::written_response(
                    res,
                ) ==> response::begun_response(old(self).buf@) == Some(res) && is_framing(
                    old(self).side,
                    Some(res),
                    old(self).buf@,
                    final(self).framing,
                ),
            old(self).stage == Stage::ForwardingFirst && event == OneTimeEvent::Forwarded ==>
                forall|h: head::ResponseHeadView| #[trigger]
                head::is_plain_response_head(h, head::MAX_HEADERS as nat)
                    && head::response_head_bytes(h).is_prefix_of(old(self).buf@) ==>
                    response::begun_response(old(self).buf@) == Some(
                    response::response_of(h, old(self).buf@),
                ) && is_framing(
                    old(self).side,
                    Some(response::response_of(h, old(self).buf@)),
                    old(self).buf@,
                    final(self).framing,
                ),
            old(self).stage == Stage::ForwardingFirst && event == OneTimeEvent::Forwarded
                && head::is_unfinished_response_head(old(self).buf@) ==> response::begun_response(
                old(self).buf@,
            ) is None && framing_is(final(self).framing, None, false, 0),
    {
        match (self.stage, event) {
            (Stage::First, OneTimeEvent::ReadEnded) => {
                self.stage = Stage::Over;
                OneTimeAction::Close
            },
            (Stage::More, OneTimeEvent::ReadEnded) => {
                self.stage = Stage::Over;
                OneTimeAction::Close
            },
            (Stage::ForwardingFirst, OneTimeEvent::ForwardFailed) => {
                self.stage = Stage::Over;
                OneTimeAction::Abandon
            },
            (Stage::ForwardingFirst, OneTimeEvent::Forwarded) => {
                let reads_on = self.judge_first();
                if reads_on {
                    self.stage = Stage::More;
                    OneTimeAction::Read(MORE_WAIT)
                } else {
                    self.stage = Stage::Over;
                    OneTimeAction::Close
                }
            },
            (Stage::ForwardingMore, OneTimeEvent::ForwardFailed) => {
                self.stage = Stage::Over;
                OneTimeAction::Close
            },
            (Stage::ForwardingMore, OneTimeEvent::Forwarded) => {
                if has_end_arrived(&self.framing, self.buf.as_slice()) {
                    self.stage = Stage::Over;
                    OneTimeAction::Close
                } else {
                    self.stage = Stage::More;
                    OneTimeAction::Read(MORE_WAIT)
                }
            },
            _ => OneTimeAction::Ignore,
        }
    }

    /// Judges the first bytes: sets the framing and tells whether to read on.
    fn judge_first(&mut self) -> (reads_on: bool)
        requires
            old(self).buf@.len() <= usize::MAX / 4,
        ensures
            final(self).wf(),
            final(self).side == old(self).side,
            final(self).stage == old(self).stage,
            final(self).buf@ == old(self).buf@,
            is_framing(
                old(self).side,
                response::begun_response(old(self).buf@),
                old(self).buf@,
                final(self).framing,
            ),
            reads_on == reads_on_after_first(
                old(self).side,
                final(self).framing,
                old(self).buf@,
            ),
            forall|res: HttpResponseView| #[trigger]
                response::is_plain_response(res) && old(self).buf@ == response::written_response(
                    res,
                ) ==> response::begun_response(old(self).buf@) == Some(res),
            forall|h: head::ResponseHeadView| #[trigger]
                head::is_plain_response_head(h, head::MAX_HEADERS as nat)
                    && head::response_head_bytes(h).is_prefix_of(old(self).buf@) ==>
                    response::begun_response(old(self).buf@) == Some(
                    response::response_of(h, old(self).buf@),
                ),
            head::is_unfinished_response_head(old(self).buf@) ==> response::begun_response(
                old(self).buf@,
            ) is None,
    {
        let mut parser = HttpResponseParser::new();
        parser.extend(self.buf.as_slice());
        assert(parser@ =~= self.buf@);
        let parsed = match parser.parse() {
            Ok(res) => Some(res),
            Err(_) => None,
        };
        let keep_alive = match &parsed {
            Some(res) => matches!(res.connection_type, ConnectionType::KeepAlive),
            None => false,
        };
        self.framing = frame(self.side, parsed.as_ref(), self.buf.as_slice());
        match self.side {
            Side::Server => server_must_read_on(&self.framing, keep_alive, self.buf.as_slice()),
            Side::Client => client_must_read_on(
                &self.framing,
                parser.is_complete(),
                self.buf.as_slice(),
            ),
        }
    }
}

// ---------------------------------------------------------------------------
// Laws
// ---------------------------------------------------------------------------

/// Once the declared end of a response has arrived it stays arrived.
pub proof fn arrived_end_stays(f: Framing, buf: Seq<u8>, more: Seq<u8>)
    requires
        end_has_arrived(f, buf),
    ensures
        end_has_arrived(f, buf + more),
{
    completeness::lemma_find_extends(buf, more, completeness::last_chunk_mark());
}

/// The declared end is never both there and missing.
pub proof fn end_is_there_or_missing(f: Framing, buf: Seq<u8>)
    ensures
        !(end_has_arrived(f, buf) && end_is_missing(f, buf)),
        (f.content_length is Some && f.headers_end > 0) || (f.content_length is None && f.chunked)
            ==> end_has_arrived(f, buf) || end_is_missing(f, buf),
{
}

/// What happened to an exchange: bytes were read, or something was reported
/// and gave an action.
pub enum Moment {
    Read(Seq<u8>),
    Told(OneTimeEvent, OneTimeAction),
}

/// An exchange together with the bytes that passed through it.
pub struct Passage {
    pub exchange: OneTime,
    /// What was read of the response.
    pub received: Seq<u8>,
    /// What was forwarded.
    pub forwarded: Seq<u8>,
    /// What was read last.
    pub chunk: Seq<u8>,
    /// Forwarding has failed.
    pub failed: bool,
}

impl Passage {
    /// What may happen, and which exchange it leaves.
    pub open spec fn allows(self, moment: Moment, after: OneTime) -> bool {
        match moment {
            Moment::Read(chunk) => self.exchange.takes(chunk, after),
            Moment::Told(event, action) => self.exchange.notes(event, after, action),
        }
    }

    /// The passage after something happened that left this exchange.
    pub open spec fn after(self, moment: Moment, exchange: OneTime) -> Passage {
        match moment {
            Moment::Read(chunk) => if self.exchange.is_reading() {
                Passage { exchange, received: self.received + chunk, chunk, ..self }
            } else {
                Passage { exchange, ..self }
            },
            Moment::Told(event, _) => if self.exchange.is_forwarding() && event
                == OneTimeEvent::Forwarded {
                Passage { exchange, forwarded: self.forwarded + self.chunk, ..self }
            } else if self.exchange.is_forwarding() && event == OneTimeEvent::ForwardFailed {
                Passage { exchange, failed: true, ..self }
            } else {
                Passage { exchange, ..self }
            },
        }
    }
}

/// The passage that a history leads to, from nothing.
pub open spec fn passage_of(start: OneTime, history: Seq<(Moment, OneTime)>) -> Passage
    decreases history.len(),
{
    if history.len() == 0 {
        Passage {
            exchange: start,
            received: Seq::empty(),
            forwarded: Seq::empty(),
            chunk: Seq::empty(),
            failed: false,
        }
    } else {
        passage_of(start, history.drop_last()).after(history.last().0, history.last().1)
    }
}

/// Every step of a history is one that may happen.
pub open spec fn is_history(start: OneTime, history: Seq<(Moment, OneTime)>) -> bool
    decreases history.len(),
{
    history.len() == 0 || {
        &&& is_history(start, history.drop_last())
        &&& passage_of(start, history.drop_last()).allows(history.last().0, history.last().1)
    }
}

/// Over a whole exchange, what was forwarded is a beginning of what was read,
/// in order: all of it, unless forwarding has failed, once nothing is on hand.
/// What was read is what the exchange has collected, and no failure is
/// followed by further forwarding.
pub proof fn exchange_forwards_what_it_reads(start: OneTime, history: Seq<(Moment, OneTime)>)
    requires
        start.stage == Stage::First,
        start.buf@ == Seq::<u8>::empty(),
        is_history(start, history),
    ensures
        ({
            let p = passage_of(start, history);
            &&& p.forwarded.is_prefix_of(p.received)
            &&& p.received == p.exchange.buf@
            &&& !p.failed && !p.exchange.is_forwarding() ==> p.forwarded == p.received
            &&& p.failed || p.exchange.is_forwarding() ==> p.received == p.forwarded + p.chunk
            &&& p.failed ==> p.exchange.stage == Stage::Over
        }),
    decreases history.len(),
{
    if history.len() > 0 {
        exchange_forwards_what_it_reads(start, history.drop_last());
    }
    let p = passage_of(start, history);
    assert(p.received == p.forwarded + p.chunk || p.received == p.forwarded);
    assert(p.forwarded =~= p.received.subrange(0, p.forwarded.len() as int));
}

/// An exchange that is over stays over.
pub proof fn over_stays_over(event: OneTimeEvent, reads_on: bool, ended: bool)
    ensures
        OneTime::next(Stage::Over, event, reads_on, ended) == (Stage::Over, OneTimeAction::Ignore),
{
}

/// A response without a length or chunks is read to its end once it is read
/// on.
pub proof fn undeclared_responses_are_read_to_the_end(f: Framing, buf: Seq<u8>)
    requires
        f.content_length is None,
        !f.chunked,
    ensures
        !end_has_arrived(f, buf),
{
}

// ---------------------------------------------------------------------------
// Where exchanges end, by the lines of the response
// ---------------------------------------------------------------------------

/// The text of a number in decimal digits is those digits, and its bytes are
/// visible.
proof fn lemma_decimal_bytes(n: nat)
    ensures
        ({
            let v = vstd::utf8::encode_utf8(numbers::decimal(n));
            &&& headers::ascii_text(v) == numbers::decimal(n)
            &&& headers::is_visible(v)
            &&& forall|i: int| 0 <= i < v.len() ==> 48 <= #[trigger] v[i] <= 57
        }),
{
    let d = numbers::decimal(n);
    let v = vstd::utf8::encode_utf8(d);
    numbers::lemma_decimal_value(n);
    assert(vstd::utf8::is_ascii_chars(d)) by {
        assert forall|i: int| 0 <= i < d.len() implies '\0' <= #[trigger] d[i] <= '\u{7f}' by {
            assert(numbers::is_digit(d[i]));
        }
    }
    vstd::utf8::is_ascii_chars_encode_utf8(d);
    assert forall|i: int| 0 <= i < v.len() implies 48 <= #[trigger] v[i] <= 57 by {
        assert(numbers::is_digit(d[i]));
        assert(v[i] == d[i] as u8);
    }
    assert(headers::ascii_text(v) =~= d) by {
        assert forall|i: int| 0 <= i < v.len() implies #[trigger] headers::ascii_text(v)[i]
            == d[i] by {
            assert(numbers::is_digit(d[i]));
            assert(v[i] == d[i] as u8);
        }
    }
}

/// Fields whose first `content-length` is a number in decimal digits declare
/// that number, up to the largest length that there is, whatever the other
/// fields are. A larger number declares nothing, and neither do fields without
/// a `content-length`.
pub proof fn fields_declare_their_length(fields: Seq<(Seq<char>, Seq<u8>)>, i: int, n: nat)
    ensures
        headers::is_first(fields, "content-length"@, i) && fields[i].1 == vstd::utf8::encode_utf8(
            numbers::decimal(n),
        ) && n <= usize::MAX ==> field_length(fields) == Some(n as int),
        headers::is_first(fields, "content-length"@, i) && fields[i].1 == vstd::utf8::encode_utf8(
            numbers::decimal(n),
        ) && n > usize::MAX ==> field_length(fields) is None,
        !headers::has_field(fields, "content-length"@) ==> field_length(fields) is None,
{
    headers::lookup_finds_the_first(fields, "content-length"@);
    lemma_decimal_bytes(n);
    numbers::numbers_are_read_up_to_their_bound(n, usize::MAX as int);
}

/// What is known of a response with a plain head is what its lines say: a
/// `content-length` line declares its number, and the body begins behind the
/// head.
proof fn lemma_framing_of_lines(
    side: Side,
    h: head::ResponseHeadView,
    k: int,
    n: nat,
    rest: Seq<u8>,
    f: Framing,
)
    requires
        written::is_ascii_response_head(h),
        written::is_length_line(h.headers, k, n),
        message::is_last_line(h.headers, "content-length"@, k),
        n <= usize::MAX,
        is_framing(
            side,
            Some(response::response_of(h, head::response_head_bytes(h) + rest)),
            head::response_head_bytes(h) + rest,
            f,
        ),
    ensures
        f.content_length matches Some(m) && m == n,
        f.headers_end == head::response_head_bytes(h).len(),
        vstd::utf8::valid_utf8(head::response_head_bytes(h) + rest) ==> visible_body_start(
            head::response_head_bytes(h) + rest,
        ) == Some(head::response_head_bytes(h).len() as int),
        head::response_head_bytes(h).len() >= 4,
{
    let bytes = head::response_head_bytes(h);
    let buf = bytes + rest;
    let fields = message::stored_fields(h.headers);
    let line = h.headers[k];
    lemma_decimal_bytes(n);
    reveal_strlit("content-length");
    assert(text::ascii_lowercase(line.0).len() == line.0.len());
    assert(head::is_plain_field(line));
    assert(message::is_readable_line(line));
    message::last_lines_count(h.headers, "content-length"@);
    assert(headers::lookup(fields, "content-length"@) == Some(line.1));
    numbers::numbers_are_read_up_to_their_bound(n, usize::MAX as int);
    written::plain_response_heads_end_with_an_empty_line(h, rest);
    text::lemma_find_from(buf, seq![13u8, 10u8, 13u8, 10u8], 0);
    response::responses_are_read_from_their_heads(h, rest);
    if rest.len() == 0 {
        written::lemma_response_head_is_ascii(h);
        assert(buf =~= bytes);
    }
}

/// After the first bytes of a response whose head has one `content-length` line
/// with a number, in any letter case, an exchange reads on as long as fewer bytes
/// of the body have arrived, however large the number is and whatever the other
/// lines are. Once they have arrived it closes, unless the response keeps the
/// visitor's connection alive.
pub proof fn declared_lengths_are_waited_for(
    exchange: OneTime,
    after: OneTime,
    action: OneTimeAction,
    h: head::ResponseHeadView,
    k: int,
    n: nat,
    rest: Seq<u8>,
)
    requires
        written::is_ascii_response_head(h),
        written::is_length_line(h.headers, k, n),
        message::is_last_line(h.headers, "content-length"@, k),
        n <= usize::MAX,
        exchange.stage == Stage::ForwardingFirst,
        exchange.buf@ == head::response_head_bytes(h) + rest,
    ensures
        response::begun_response(exchange.buf@) == Some(response::response_of(h, exchange.buf@))
            && exchange.notes(OneTimeEvent::Forwarded, after, action) ==> {
            &&& after.framing.content_length matches Some(m) && m == n
            &&& after.framing.headers_end == exchange.buf@.len() - rest.len()
            &&& after.framing.headers_end > 0
            &&& rest.len() < n ==> action == OneTimeAction::Read(5) && after.stage == Stage::More
            &&& rest.len() >= n && exchange.side == Side::Client ==> action == OneTimeAction::Close
                && after.stage == Stage::Over
            &&& rest.len() >= n && exchange.side == Side::Server ==> (action
                == OneTimeAction::Close && after.stage == Stage::Over) == (response::response_of(
                h,
                exchange.buf@,
            ).connection_type != ConnectionType::KeepAlive)
        },
{
    if response::begun_response(exchange.buf@) == Some(response::response_of(h, exchange.buf@))
        && exchange.notes(OneTimeEvent::Forwarded, after, action) {
        lemma_framing_of_lines(exchange.side, h, k, n, rest, after.framing);
        written::declared_messages_end_with_their_body(
            arbitrary(),
            h,
            k,
            n,
            rest,
        );
    }
}

/// Once it is read on, a response of a declared length is read until so many
/// bytes of the body have arrived, and then no further.
pub proof fn declared_lengths_are_read_to_the_end(
    exchange: OneTime,
    after: OneTime,
    action: OneTimeAction,
    n: usize,
)
    requires
        exchange.stage == Stage::ForwardingMore,
        exchange.framing.content_length == Some(n),
        exchange.framing.headers_end > 0,
    ensures
        exchange.notes(OneTimeEvent::Forwarded, after, action) ==> {
            &&& after.framing == exchange.framing
            &&& exchange.buf@.len() >= exchange.framing.headers_end + n ==> action
                == OneTimeAction::Close && after.stage == Stage::Over
            &&& exchange.buf@.len() < exchange.framing.headers_end + n ==> action
                == OneTimeAction::Read(5) && after.stage == Stage::More
        },
{
}

/// A response whose head has a `transfer-encoding` line that holds `chunked`, in
/// any letter case, and no `content-length` line is read until the empty chunk
/// has arrived, whatever the other lines are.
pub proof fn chunks_are_waited_for(
    exchange: OneTime,
    after: OneTime,
    action: OneTimeAction,
    h: head::ResponseHeadView,
    k: int,
    rest: Seq<u8>,
)
    requires
        head::is_plain_response_head(h, 64),
        message::is_last_line(h.headers, "transfer-encoding"@, k),
        headers::holds_word(h.headers[k].1, "chunked"@),
        message::has_no_line(h.headers, "content-length"@),
        exchange.stage == Stage::ForwardingFirst,
        exchange.buf@ == head::response_head_bytes(h) + rest,
    ensures
        response::begun_response(exchange.buf@) == Some(response::response_of(h, exchange.buf@))
            && exchange.notes(OneTimeEvent::Forwarded, after, action) ==> {
            &&& after.framing.content_length is None
            &&& after.framing.chunked
            &&& !text::contains(exchange.buf@, seq![48u8, 13u8, 10u8, 13u8, 10u8]) ==> action
                == OneTimeAction::Read(5) && after.stage == Stage::More
            &&& text::contains(exchange.buf@, seq![48u8, 13u8, 10u8, 13u8, 10u8])
                && exchange.side == Side::Client ==> action == OneTimeAction::Close && after.stage
                == Stage::Over
            &&& text::contains(exchange.buf@, seq![48u8, 13u8, 10u8, 13u8, 10u8])
                && exchange.side == Side::Server ==> (action == OneTimeAction::Close && after.stage
                == Stage::Over) == (response::response_of(h, exchange.buf@).connection_type
                != ConnectionType::KeepAlive)
        },
{
    let fields = message::stored_fields(h.headers);
    let line = h.headers[k];
    reveal_strlit("transfer-encoding");
    headers::lemma_known_words();
    assert(text::ascii_lowercase(line.0).len() == line.0.len());
    assert(head::is_plain_field(line));
    assert(message::is_readable_line(line));
    message::last_lines_count(h.headers, "content-length"@);
    message::last_lines_count(h.headers, "transfer-encoding"@);
    headers::lookup_finds_the_first(fields, "transfer-encoding"@);
    headers::values_are_read_in_any_letter_case(fields, "transfer-encoding"@, "chunked"@);
    let i = choose|i: int| #[trigger] headers::is_first(fields, "transfer-encoding"@, i);
    assert(fields[i].1 == line.1);
}

/// Once it is read on, a response in chunks is read until the empty chunk has
/// arrived, and then no further.
pub proof fn chunks_are_read_to_the_end(exchange: OneTime, after: OneTime, action: OneTimeAction)
    requires
        exchange.stage == Stage::ForwardingMore,
        exchange.framing.content_length is None,
        exchange.framing.chunked,
    ensures
        exchange.notes(OneTimeEvent::Forwarded, after, action) ==> {
            &&& after.framing == exchange.framing
            &&& text::contains(exchange.buf@, seq![48u8, 13u8, 10u8, 13u8, 10u8]) ==> action
                == OneTimeAction::Close && after.stage == Stage::Over
            &&& !text::contains(exchange.buf@, seq![48u8, 13u8, 10u8, 13u8, 10u8]) ==> action
                == OneTimeAction::Read(5) && after.stage == Stage::More
        },
{
}

/// A response whose lines declare no end: the server reads on exactly where the
/// response keeps the connection alive, the client exactly where the response is
/// not complete; and once it is read on, it is read until nothing comes.
pub proof fn undeclared_ends_are_left_to_the_connection(
    exchange: OneTime,
    after: OneTime,
    action: OneTimeAction,
    h: head::ResponseHeadView,
)
    requires
        head::is_plain_response_head(h, 64),
        message::has_no_line(h.headers, "transfer-encoding"@),
        message::has_no_line(h.headers, "content-length"@),
    ensures
        exchange.stage == Stage::ForwardingFirst && response::begun_response(exchange.buf@) == Some(
            response::response_of(h, exchange.buf@),
        ) && exchange.notes(OneTimeEvent::Forwarded, after, action) ==> {
            &&& after.framing.content_length is None
            &&& !after.framing.chunked
            &&& (action == OneTimeAction::Read(5) && after.stage == Stage::More) || (action
                == OneTimeAction::Close && after.stage == Stage::Over)
            &&& exchange.side == Side::Server ==> (after.stage == Stage::More) == (
            response::response_of(h, exchange.buf@).connection_type == ConnectionType::KeepAlive)
            &&& exchange.side == Side::Client ==> (after.stage == Stage::More)
                == !completeness::response_complete(exchange.buf@)
        },
        exchange.stage == Stage::ForwardingMore && exchange.framing.content_length is None
            && !exchange.framing.chunked && exchange.notes(OneTimeEvent::Forwarded, after, action)
            ==> action == OneTimeAction::Read(5) && after.stage == Stage::More,
{
    let fields = message::stored_fields(h.headers);
    headers::lemma_known_words();
    message::last_lines_count(h.headers, "content-length"@);
    message::last_lines_count(h.headers, "transfer-encoding"@);
    headers::lookup_finds_the_first(fields, "transfer-encoding"@);
    headers::values_are_read_in_any_letter_case(fields, "transfer-encoding"@, "chunked"@);
}

/// While no head is there, the server is done with the first bytes, and the
/// client reads on where the response is not complete.
pub proof fn headless_responses_declare_nothing(
    exchange: OneTime,
    after: OneTime,
    action: OneTimeAction,
)
    ensures
        exchange.stage == Stage::ForwardingFirst && response::begun_response(exchange.buf@) is None
            && exchange.notes(OneTimeEvent::Forwarded, after, action) ==> {
            &&& framing_is(after.framing, None, false, 0)
            &&& exchange.side == Side::Server ==> action == OneTimeAction::Close && after.stage
                == Stage::Over
            &&& exchange.side == Side::Client && completeness::response_complete(exchange.buf@) ==>
                action == OneTimeAction::Close && after.stage == Stage::Over
            &&& exchange.side == Side::Client && !completeness::response_complete(exchange.buf@)
                ==> action == OneTimeAction::Read(5) && after.stage == Stage::More
        },
{
}

/// The first bytes are waited for half a minute. Bytes that an exchange waits for
/// are collected behind the earlier ones and forwarded, however many they are; at
/// no other time are any.
pub proof fn bytes_that_come_are_forwarded(exchange: OneTime, data: Seq<u8>, after: OneTime)
    requires
        exchange.takes(data, after),
    ensures
        exchange.first_action() == OneTimeAction::Read(30),
        exchange.stage == Stage::First ==> exchange.answer_to_bytes() == OneTimeAction::Forward
            && after.stage == Stage::ForwardingFirst && after.buf@ == exchange.buf@ + data,
        exchange.stage == Stage::More ==> exchange.answer_to_bytes() == OneTimeAction::Forward
            && after.stage == Stage::ForwardingMore && after.buf@ == exchange.buf@ + data,
        exchange.stage != Stage::First && exchange.stage != Stage::More ==>
            exchange.answer_to_bytes() == OneTimeAction::Ignore && after.stage == exchange.stage
            && after.buf@ == exchange.buf@,
        after.framing == exchange.framing,
        after.side == exchange.side,
{
}

/// An exchange ends where nothing more comes or forwarding fails: at once where
/// the first bytes could not be forwarded, else by shutting the connections down.
/// Reports that do not belong to what it is doing change nothing.
pub proof fn exchanges_end_for_a_reason(
    exchange: OneTime,
    event: OneTimeEvent,
    after: OneTime,
    action: OneTimeAction,
)
    ensures
        exchange.notes(event, after, action) ==> {
            &&& after.buf@ == exchange.buf@
            &&& after.side == exchange.side
            &&& (exchange.stage == Stage::First || exchange.stage == Stage::More) && event
                == OneTimeEvent::ReadEnded ==> action == OneTimeAction::Close && after.stage
                == Stage::Over
            &&& (exchange.stage == Stage::First || exchange.stage == Stage::More) && event
                != OneTimeEvent::ReadEnded ==> action == OneTimeAction::Ignore && after.stage
                == exchange.stage
            &&& exchange.stage == Stage::ForwardingFirst && event == OneTimeEvent::ForwardFailed
                ==> action == OneTimeAction::Abandon && after.stage == Stage::Over
            &&& exchange.stage == Stage::ForwardingMore && event == OneTimeEvent::ForwardFailed
                ==> action == OneTimeAction::Close && after.stage == Stage::Over
            &&& (exchange.stage == Stage::ForwardingFirst || exchange.stage
                == Stage::ForwardingMore) && event == OneTimeEvent::ReadEnded ==> action
                == OneTimeAction::Ignore && after.stage == exchange.stage
            &&& exchange.stage == Stage::Over ==> action == OneTimeAction::Ignore && after.stage
                == Stage::Over
        },
{
}

/// Where a response is known to declare no end, or one whose place is not known,
/// only the connection or its being complete ask for more.
pub proof fn reading_on_needs_a_declared_end(
    f: Framing,
    keep_alive: bool,
    complete: bool,
    buf: Seq<u8>,
)
    ensures
        server_reads_on(f, true, buf),
        f.content_length is Some && f.headers_end == 0 ==> !server_reads_on(f, false, buf)
            && !end_has_arrived(f, buf),
        f.content_length is None && !f.chunked ==> server_reads_on(f, keep_alive, buf) == keep_alive
            && client_reads_on(f, complete, buf) == !complete,
        f.content_length matches Some(n) ==> f.headers_end > 0 ==> server_reads_on(f, false, buf)
            == (buf.len() < f.headers_end + n),
        f.content_length is Some && !vstd::utf8::valid_utf8(buf) ==> client_reads_on(
            f,
            complete,
            buf,
        ) == !complete,
{
}

/// A new exchange is on the side it was made for, has nothing, waits half a minute, and
/// collects what comes first.
pub proof fn new_exchanges_wait(exchange: OneTime, side: Side, data: Seq<u8>, after: OneTime)
    requires
        exchange.is_new(side),
        exchange.takes(data, after),
    ensures
        exchange.first_action() == OneTimeAction::Read(30),
        exchange.answer_to_bytes() == OneTimeAction::Forward,
        after.side == side,
        after.stage == Stage::ForwardingFirst,
        after.buf@ == data,
{
    assert(Seq::<u8>::empty() + data =~= data);
}

/// What is known of any response is what its fields say: the length that they declare,
/// and chunks where the first `transfer-encoding` field holds `chunked` in any letter
/// case. Where its body begins is known from the body, or from the first empty line of
/// the text: the server goes by the body first, the client, where a length is declared,
/// by the empty line first.
pub proof fn responses_are_framed_by_their_fields(
    side: Side,
    res: HttpResponseView,
    buf: Seq<u8>,
    f: Framing,
)
    requires
        is_framing(side, Some(res), buf, f),
    ensures
        field_length(res.headers) is None ==> f.content_length is None,
        field_length(res.headers) matches Some(n) ==> (f.content_length matches Some(m) && m == n),
        f.chunked == headers::first_holds(res.headers, "transfer-encoding"@, "chunked"@),
        side == Side::Server ==> (res.body matches Some(b) ==> f.headers_end == buf.len()
            - b.len()),
        side == Side::Server && res.body is None ==> (visible_body_start(buf) matches Some(start)
            ==> f.headers_end == start),
        side == Side::Client && field_length(res.headers) is Some ==> (visible_body_start(
            buf,
        ) matches Some(start) ==> f.headers_end == start),
        side == Side::Client && (field_length(res.headers) is None || visible_body_start(buf) is None)
            ==> (res.body matches Some(b) ==> f.headers_end == buf.len() - b.len()),
        res.body is None && visible_body_start(buf) is None ==> f.headers_end == 0,
        res.body is None && side == Side::Client && field_length(res.headers) is None
            ==> f.headers_end == 0,
{
    headers::lemma_known_words();
    headers::lemma_mentions(res.headers, "transfer-encoding"@, "chunked"@);
}

/// Of bytes that are text, the body begins behind the first empty line; of others, its
/// beginning is not seen.
pub proof fn bodies_begin_behind_the_empty_line(head: Seq<u8>, rest: Seq<u8>, buf: Seq<u8>)
    ensures
        !vstd::utf8::valid_utf8(buf) ==> visible_body_start(buf) is None,
        !text::contains(buf, seq![13u8, 10u8, 13u8, 10u8]) ==> visible_body_start(buf) is None,
        vstd::utf8::valid_utf8(head + seq![13u8, 10u8, 13u8, 10u8] + rest) && !text::contains(
            head + seq![13u8, 10u8, 13u8],
            seq![13u8, 10u8, 13u8, 10u8],
        ) ==> visible_body_start(head + seq![13u8, 10u8, 13u8, 10u8] + rest) == Some(
            head.len() as int + 4,
        ),
{
    text::lemma_find_from(buf, completeness::head_end_mark(), 0);
    assert(completeness::head_end_mark() == seq![13u8, 10u8, 13u8, 10u8]);
    if !text::contains(head + seq![13u8, 10u8, 13u8], seq![13u8, 10u8, 13u8, 10u8]) {
        completeness::lemma_first_empty_line(head, head + seq![13u8, 10u8, 13u8], rest);
    }
}

/// After the first bytes of a response with a plain head whose last `content-length`
/// line says a number, in any letter case, an exchange reads on as long as fewer bytes
/// of the body have arrived, whatever the other lines are: at the server once a byte of
/// the body is there, and at either side where the bytes are text.
pub proof fn last_lengths_are_waited_for(
    exchange: OneTime,
    after: OneTime,
    action: OneTimeAction,
    h: head::ResponseHeadView,
    k: int,
    n: nat,
    rest: Seq<u8>,
)
    requires
        head::is_plain_response_head(h, 64),
        message::is_last_line(h.headers, "content-length"@, k),
        h.headers[k].1 == vstd::utf8::encode_utf8(numbers::decimal(n)),
        n <= usize::MAX,
        exchange.stage == Stage::ForwardingFirst,
        exchange.buf@ == head::response_head_bytes(h) + rest,
        vstd::utf8::valid_utf8(exchange.buf@) || (exchange.side == Side::Server && rest.len() > 0),
    ensures
        response::begun_response(exchange.buf@) == Some(response::response_of(h, exchange.buf@))
            && exchange.notes(OneTimeEvent::Forwarded, after, action) ==> {
            &&& after.framing.content_length matches Some(m) && m == n
            &&& after.framing.headers_end == exchange.buf@.len() - rest.len()
            &&& rest.len() < n ==> action == OneTimeAction::Read(5) && after.stage == Stage::More
            &&& rest.len() >= n && exchange.side == Side::Client ==> action == OneTimeAction::Close
                && after.stage == Stage::Over
        },
{
    let line = h.headers[k];
    lemma_decimal_bytes(n);
    reveal_strlit("content-length");
    assert(text::ascii_lowercase(line.0).len() == line.0.len());
    assert(head::is_plain_field(line));
    assert(message::is_readable_line(line));
    message::last_lines_count(h.headers, "content-length"@);
    numbers::numbers_are_read_up_to_their_bound(n, usize::MAX as int);
    written::plain_response_heads_end_with_an_empty_line(h, rest);
    text::lemma_find_from(exchange.buf@, seq![13u8, 10u8, 13u8, 10u8], 0);
    response::responses_are_read_from_their_heads(h, rest);
}

/// What the first bytes of any response, or of what is none, decide: the server reads on
/// where the connection is kept alive or the declared end is missing, the client where
/// the declared end is missing, or where nothing is declared and the response is not
/// complete; else the exchange is closed.
pub proof fn first_bytes_decide_reading_on(
    exchange: OneTime,
    after: OneTime,
    action: OneTimeAction,
)
    requires
        exchange.stage == Stage::ForwardingFirst,
    ensures
        exchange.notes(OneTimeEvent::Forwarded, after, action) ==> {
            let f = after.framing;
            let buf = exchange.buf@;
            let keeps = response::begun_response(buf) matches Some(res) && res.connection_type
                == ConnectionType::KeepAlive;
            let reads = action == OneTimeAction::Read(5) && after.stage == Stage::More;
            let closes = action == OneTimeAction::Close && after.stage == Stage::Over;
            let empty_chunk = text::contains(buf, seq![48u8, 13u8, 10u8, 13u8, 10u8]);
            &&& reads || closes
            &&& exchange.side == Side::Server && keeps ==> reads
            &&& exchange.side == Side::Server && !keeps ==> (f.content_length matches Some(n)
                ==> reads == (f.headers_end > 0 && buf.len() < f.headers_end + n))
            &&& exchange.side == Side::Server && !keeps && f.content_length is None ==> reads == (
            f.chunked && !empty_chunk)
            &&& exchange.side == Side::Client ==> (f.content_length matches Some(n) ==> (
            visible_body_start(buf) matches Some(start) ==> reads == (buf.len() < start + n)))
            &&& exchange.side == Side::Client && f.content_length is Some && visible_body_start(
                buf,
            ) is None ==> reads == !completeness::response_complete(buf)
            &&& exchange.side == Side::Client && f.content_length is None && f.chunked ==> reads
                == !empty_chunk
            &&& exchange.side == Side::Client && f.content_length is None && !f.chunked ==> reads
                == !completeness::response_complete(buf)
        },
{
}

} // verus!
