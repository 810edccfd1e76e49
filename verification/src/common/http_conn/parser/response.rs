//! Responses that arrive piece by piece.

use crate::common::http_conn::connection;
use crate::common::http_conn::parser::buffer;
use crate::common::http_conn::parser::completeness;
use crate::common::http_conn::parser::head;
use crate::common::http_conn::parser::message;
use crate::common::http_conn::parser::message::{ParseError, ParseErrorKind};
use crate::common::http_conn::types;
use crate::common::http_conn::types::{HttpResponse, HttpResponseView};
use crate::common::http_conn::upgrade;
use crate::common::http_conn::wire;
use bytes::BytesMut;
use vstd::prelude::*;

verus! {

/// Collects the bytes of a response.
#[derive(Debug)]
pub struct HttpResponseParser {
    buf: BytesMut,
}

impl View for HttpResponseParser {
    type V = Seq<u8>;

    closed spec fn view(&self) -> Seq<u8> {
        buffer::buffer_bytes(self.buf)
    }
}

/// The status of a response whose head has that code.
pub open spec fn status_of(code: Option<u16>) -> u16 {
    match code {
        Some(c) => c,
        None => 200,
    }
}

/// The response that a head and the bytes it was read from make.
pub open spec fn response_of(h: head::ResponseHeadView, buf: Seq<u8>) -> HttpResponseView {
    let version = message::version_text(h.version);
    let fields = message::stored_fields(h.headers);
    HttpResponseView {
        status: status_of(h.code),
        reason: match h.reason {
            Some(s) => s,
            None => "OK"@,
        },
        version,
        headers: fields,
        body: message::body_after(buf, h.len as int),
        connection_type: connection::connection_type_of(fields, version),
    }
}

/// What a parsed head and the bytes it was read from come to.
pub open spec fn response_outcome(
    parsed: head::HeadView<head::ResponseHeadView>,
    buf: Seq<u8>,
    r: Result<HttpResponse, ParseError>,
) -> bool {
    match parsed {
        head::HeadView::Complete(h) => r matches Ok(res) && res@ == response_of(h, buf),
        head::HeadView::Partial => r matches Err(e) && e.kind == ParseErrorKind::WouldBlock
            && e.message@ == "불완전한 HTTP 응답"@,
        head::HeadView::Invalid(m) => r matches Err(e) && e.kind == ParseErrorKind::InvalidData
            && e.message@ == m,
    }
}

/// The bytes begin with the head of a response that grants a WebSocket.
pub open spec fn upgrade_granted(buf: Seq<u8>) -> bool {
    head::parsed_response(buf, head::MAX_HEADERS as nat) matches head::HeadView::Complete(h)
        && upgrade::grants_websocket(status_of(h.code), message::stored_fields(h.headers))
}

/// The response that the bytes begin, if they hold its head.
pub open spec fn begun_response(buf: Seq<u8>) -> Option<HttpResponseView> {
    match head::parsed_response(buf, head::MAX_HEADERS as nat) {
        head::HeadView::Complete(h) => Some(response_of(h, buf)),
        _ => None,
    }
}

/// Makes a response of what reading its head came to.
pub fn response_from_head(parsed: head::HeadStatus<head::ResponseHead>, buf: &[u8]) -> (r: Result<
    HttpResponse,
    ParseError,
>)
    requires
        parsed matches head::HeadStatus::Complete(h) ==> h.len <= buf@.len() && h.headers@.len()
            <= head::MAX_HEADERS,
    ensures
        response_outcome(parsed@, buf@, r),
{
    match parsed {
        head::HeadStatus::Complete(h) => {
            let version = message::version_of(h.version);
            let header_map = message::store_fields(&h.headers);
            let body = message::take_body(buf, h.len);
            let connection_type = connection::determine_connection_type(
                &header_map,
                version.as_str(),
            );
            let status: u16 = match h.code {
                Some(c) => c,
                None => 200,
            };
            let reason = match h.reason {
                Some(s) => s,
                None => "OK".to_owned(),
            };
            Ok(HttpResponse { status, reason, version, headers: header_map, body, connection_type })
        },
        head::HeadStatus::Partial => Err(
            ParseError {
                kind: ParseErrorKind::WouldBlock,
                message: "불완전한 HTTP 응답".to_owned(),
            },
        ),
        head::HeadStatus::Invalid(m) => Err(
            ParseError { kind: ParseErrorKind::InvalidData, message: m },
        ),
    }
}

/// A response as it is written.
pub open spec fn written_response(res: HttpResponseView) -> Seq<u8> {
    wire::response_head(res.version, res.status, res.reason, res.headers) + types::body_bytes(
        res.body,
    )
}

/// A response that reads back as it is written: its parts are of the forms that
/// a head allows, its fields are stored as they are written, a body has bytes,
/// and the connection type is the one its fields give.
pub open spec fn is_plain_response(res: HttpResponseView) -> bool {
    &&& res.version == "HTTP/1.0"@ || res.version == "HTTP/1.1"@
    &&& res.status <= 999
    &&& head::is_reason(res.reason)
    &&& message::are_plain_fields(res.headers)
    &&& res.body matches Some(b) ==> b.len() > 0
    &&& res.connection_type == connection::connection_type_of(res.headers, res.version)
}

/// The head of a response that reads back as it is written.
pub open spec fn plain_head(res: HttpResponseView) -> head::ResponseHeadView {
    let h = head::ResponseHeadView {
        len: 0,
        version: Some(message::minor_of(res.version)),
        code: Some(res.status),
        reason: Some(res.reason),
        headers: res.headers,
    };
    head::ResponseHeadView { len: head::response_head_bytes(h).len(), ..h }
}

/// Reading the plain head of a written response gives the response back.
proof fn lemma_plain_response(res: HttpResponseView)
    requires
        is_plain_response(res),
    ensures
        head::is_plain_response_head(plain_head(res), head::MAX_HEADERS as nat),
        head::response_head_bytes(plain_head(res)).is_prefix_of(written_response(res)),
        response_of(plain_head(res), written_response(res)) == res,
{
    let h = plain_head(res);
    let buf = written_response(res);
    message::lemma_versions_differ();
    message::lemma_plain_fields(res.headers);
    let bytes = head::response_head_bytes(h);
    assert(buf == bytes + types::body_bytes(res.body));
    assert(buf.subrange(0, bytes.len() as int) =~= bytes);
    assert(buf.skip(bytes.len() as int) =~= types::body_bytes(res.body));
    assert(response_of(h, buf) =~= res);
}

impl HttpResponseParser {
    /// A parser that has seen nothing.
    pub fn new() -> (r: Self)
        ensures
            r@ == Seq::<u8>::empty(),
    {
        Self { buf: buffer::new_buffer(buffer::INITIAL_CAPACITY) }
    }

    /// Adds what arrived to the buffer.
    pub fn extend(&mut self, data: &[u8])
        requires
            old(self)@.len() + data@.len() <= usize::MAX / 4,
        ensures
            final(self)@ == old(self)@ + data@,
    {
        buffer::extend_buffer(&mut self.buf, data);
    }

    /// Whether the response has fully arrived, as far as can be told. One that
    /// has does not cease to be complete when more arrives.
    pub fn is_complete(&self) -> (r: bool)
        ensures
            r == completeness::response_complete(self@),
            r ==> forall|more: Seq<u8>| completeness::response_complete(#[trigger] (self@ + more)),
            forall|h: head::ResponseHeadView| #[trigger]
                head::is_plain_response_head(h, head::MAX_HEADERS as nat)
                    && head::response_head_bytes(h).is_prefix_of(self@) ==> head::parsed_response(
                    self@,
                    head::MAX_HEADERS as nat,
                ) == head::HeadView::Complete(h),
    {
        completeness::is_response_complete(buffer::buffer_slice(&self.buf))
    }

    /// Parses the response. What was written in the plain way is read back as
    /// it was; what begins with a plain head is read by that head, whatever
    /// letter case its names are in; and while the head is unfinished, more has
    /// to arrive.
    pub fn parse(&self) -> (r: Result<HttpResponse, ParseError>)
        ensures
            response_outcome(head::parsed_response(self@, head::MAX_HEADERS as nat), self@, r),
            forall|res: HttpResponseView| #[trigger]
                is_plain_response(res) && self@ == written_response(res) ==> (r matches Ok(read)
                    && read@ == res),
            forall|h: head::ResponseHeadView| #[trigger]
                head::is_plain_response_head(h, head::MAX_HEADERS as nat)
                    && head::response_head_bytes(h).is_prefix_of(self@) ==> (r matches Ok(read)
                    && read@ == response_of(h, self@)),
            head::is_unfinished_response_head(self@) ==> (r matches Err(e) && e.kind
                == ParseErrorKind::WouldBlock && e.message@ == "불완전한 HTTP 응답"@),
    {
        let buf = buffer::buffer_slice(&self.buf);
        let parsed = head::parse_response_head(buf, head::MAX_HEADERS);
        let ghost seen = parsed@;
        let r = response_from_head(parsed, buf);
        proof {
            assert forall|res: HttpResponseView| #[trigger]
                is_plain_response(res) && self@ == written_response(res) implies (r matches Ok(
                read,
            ) && read@ == res) by {
                lemma_plain_response(res);
                assert(seen == head::HeadView::Complete(plain_head(res)));
            }
        }
        r
    }

    /// Whether what arrived is a response that grants a WebSocket.
    pub fn is_websocket_upgrade(&self) -> (r: bool)
        ensures
            r == upgrade_granted(self@),
            forall|res: HttpResponseView| #[trigger]
                is_plain_response(res) && self@ == written_response(res) ==> r
                    == upgrade::grants_websocket(res.status, res.headers),
            forall|h: head::ResponseHeadView| #[trigger]
                head::is_plain_response_head(h, head::MAX_HEADERS as nat)
                    && head::response_head_bytes(h).is_prefix_of(self@) ==> r
                    == upgrade::grants_websocket(
                    status_of(h.code),
                    message::stored_fields(h.headers),
                ),
            head::is_unfinished_response_head(self@) ==> !r,
    {
        match self.parse() {
            Ok(res) => upgrade::is_websocket_upgrade_response(res.status, &res.headers),
            Err(_) => false,
        }
    }

    /// What is in the buffer.
    pub fn get_buffer(&self) -> (r: &[u8])
        ensures
            r@ == self@,
    {
        buffer::buffer_slice(&self.buf)
    }

    /// Empties the buffer.
    pub fn clear(&mut self)
        ensures
            final(self)@ == Seq::<u8>::empty(),
    {
        buffer::clear_buffer(&mut self.buf);
    }
}

// ---------------------------------------------------------------------------
// Laws
// ---------------------------------------------------------------------------

/// A response is read from its head and what follows: the version, the status
/// and the reason are those of the status line, the fields are those of the
/// lines, and what follows the head, if anything does, is the body. A head may
/// have up to 64 lines.
pub proof fn responses_are_read_from_their_heads(h: head::ResponseHeadView, rest: Seq<u8>)
    requires
        head::is_plain_response_head(h, 64),
    ensures
        head::is_plain_response_head(h, head::MAX_HEADERS as nat),
        ({
            let res = response_of(h, head::response_head_bytes(h) + rest);
            &&& Some(res.status) == h.code
            &&& Some(res.reason) == h.reason
            &&& h.version == Some(0u8) ==> res.version == "HTTP/1.0"@
            &&& h.version == Some(1u8) ==> res.version == "HTTP/1.1"@
            &&& res.headers == message::stored_fields(h.headers)
            &&& rest.len() == 0 ==> res.body is None
            &&& rest.len() > 0 ==> res.body == Some(rest)
            &&& res.connection_type == connection::connection_type_of(res.headers, res.version)
        }),
{
    let buf = head::response_head_bytes(h) + rest;
    assert(buf.skip(head::response_head_bytes(h).len() as int) =~= rest);
}

/// Bytes begin a response exactly where they begin with a head; they grant a WebSocket
/// where that head does.
pub proof fn begun_responses_have_a_head(buf: Seq<u8>, h: head::ResponseHeadView)
    ensures
        !(head::parsed_response(buf, 64) is Complete) ==> begun_response(buf) is None
            && !upgrade_granted(buf),
        head::parsed_response(buf, 64) == head::HeadView::Complete(h) ==> begun_response(buf)
            == Some(response_of(h, buf)) && upgrade_granted(buf) == upgrade::grants_websocket(
            response_of(h, buf).status,
            message::stored_fields(h.headers),
        ),
{
}

/// A head that names no status or no reason stands for 200 and `OK`.
pub proof fn heads_have_defaults(h: head::ResponseHeadView, buf: Seq<u8>)
    ensures
        h.code is None ==> response_of(h, buf).status == 200,
        h.reason is None ==> response_of(h, buf).reason == "OK"@,
        h.version is None ==> response_of(h, buf).version == "HTTP/1.1"@,
        h.code matches Some(c) ==> response_of(h, buf).status == c,
        h.reason matches Some(s) ==> response_of(h, buf).reason == s,
{
}

/// A head that is there gives the response; one that is not whole asks for more, and what
/// is no head is refused with what was found wrong.
pub proof fn heads_decide_the_outcome(
    parsed: head::HeadView<head::ResponseHeadView>,
    buf: Seq<u8>,
    r: Result<HttpResponse, ParseError>,
)
    requires
        response_outcome(parsed, buf, r),
    ensures
        parsed is Complete ==> r is Ok,
        parsed matches head::HeadView::Complete(h) ==> r->Ok_0@ == response_of(h, buf),
        parsed is Partial ==> r is Err && r->Err_0.kind == ParseErrorKind::WouldBlock,
        parsed matches head::HeadView::Invalid(m) ==> r is Err && r->Err_0.kind
            == ParseErrorKind::InvalidData && r->Err_0.message@ == m,
        r is Err && r->Err_0.kind == ParseErrorKind::WouldBlock ==> r->Err_0.message@
            == "불완전한 HTTP 응답"@,
{
}

/// A written response is its status line, a line for each field, an empty line and its
/// body, all of it.
pub proof fn responses_are_written_in_lines(res: HttpResponseView)
    ensures
        written_response(res) == wire::status_line(res.version, res.status, res.reason)
            + wire::field_lines(res.headers) + seq![13u8, 10u8] + (match res.body {
            Some(b) => b,
            None => Seq::empty(),
        }),
{
}

/// A response reads back as it is written where its version is one of the two, its
/// status has up to three digits, its reason is printable, its fields are plain, a body
/// has bytes, and the connection type is the one its fields give.
pub proof fn responses_of_plain_parts_are_plain(res: HttpResponseView)
    requires
        res.version == "HTTP/1.0"@ || res.version == "HTTP/1.1"@,
        res.status <= 999,
        forall|i: int| 0 <= i < res.reason.len() ==> ' ' <= #[trigger] res.reason[i] <= '~',
        message::are_plain_fields(res.headers),
        res.body matches Some(b) ==> b.len() > 0,
        res.connection_type == connection::connection_type_of(res.headers, res.version),
    ensures
        is_plain_response(res),
{
}

} // verus!
