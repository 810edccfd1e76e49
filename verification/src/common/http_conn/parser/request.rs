//! Requests that arrive piece by piece.

use crate::common::http_conn::connection;
use crate::common::http_conn::headers;
use crate::common::http_conn::parser::buffer;
use crate::common::http_conn::parser::completeness;
use crate::common::http_conn::parser::head;
use crate::common::http_conn::parser::message;
use crate::common::http_conn::parser::message::{ParseError, ParseErrorKind};
use crate::common::http_conn::types;
use crate::common::http_conn::types::{HttpRequest, HttpRequestView};
use crate::common::http_conn::upgrade;
use bytes::BytesMut;
use vstd::prelude::*;

verus! {

/// Collects the bytes of a request.
#[derive(Debug)]
pub struct HttpRequestParser {
    buf: BytesMut,
}

impl View for HttpRequestParser {
    type V = Seq<u8>;

    closed spec fn view(&self) -> Seq<u8> {
        buffer::buffer_bytes(self.buf)
    }
}

/// The request that a head and the bytes it was read from make.
pub open spec fn request_of(h: head::RequestHeadView, buf: Seq<u8>) -> HttpRequestView {
    let version = message::version_text(h.version);
    let fields = message::stored_fields(h.headers);
    HttpRequestView {
        method: match h.method {
            Some(m) => m,
            None => "GET"@,
        },
        path: match h.path {
            Some(p) => p,
            None => "/"@,
        },
        version,
        headers: fields,
        body: message::body_after(buf, h.len as int),
        connection_type: connection::connection_type_of(fields, version),
    }
}

/// What a parsed head and the bytes it was read from come to.
pub open spec fn request_outcome(
    parsed: head::HeadView<head::RequestHeadView>,
    buf: Seq<u8>,
    r: Result<HttpRequest, ParseError>,
) -> bool {
    match parsed {
        head::HeadView::Complete(h) => r matches Ok(req) && req@ == request_of(h, buf),
        head::HeadView::Partial => r matches Err(e) && e.kind == ParseErrorKind::WouldBlock
            && e.message@ == "불완전한 HTTP 요청"@,
        head::HeadView::Invalid(m) => r matches Err(e) && e.kind == ParseErrorKind::InvalidData
            && e.message@ == m,
    }
}

/// The bytes begin with the head of a request for a WebSocket.
pub open spec fn upgrade_requested(buf: Seq<u8>) -> bool {
    head::parsed_request(buf, head::MAX_HEADERS as nat) matches head::HeadView::Complete(h)
        && upgrade::asks_for_websocket(message::stored_fields(h.headers))
}

/// The request that the bytes are, if they are a whole one.
pub open spec fn recognised(buf: Seq<u8>) -> Option<HttpRequestView> {
    if completeness::request_complete(buf) {
        match head::parsed_request(buf, head::MAX_HEADERS as nat) {
            head::HeadView::Complete(h) => Some(request_of(h, buf)),
            _ => None,
        }
    } else {
        None
    }
}

/// The request that the bytes are, if they are a whole one. What was written in
/// the plain way is recognised as what it was, and what begins with a plain head
/// by that head.
pub fn recognise(data: &[u8]) -> (r: Option<HttpRequest>)
    requires
        data@.len() <= usize::MAX / 4,
    ensures
        match r {
            Some(req) => recognised(data@) == Some(req@),
            None => recognised(data@) is None,
        },
        forall|req: HttpRequestView| #[trigger]
            is_plain_request(req) && data@ == types::written_request(req) ==> recognised(data@)
                == (if completeness::request_complete(data@) {
                Some(req)
            } else {
                None
            }),
        forall|h: head::RequestHeadView| #[trigger]
            head::is_plain_head(h, head::MAX_HEADERS as nat) && head::head_bytes(h).is_prefix_of(
                data@,
            ) ==> recognised(data@) == (if completeness::request_complete(data@) {
                Some(request_of(h, data@))
            } else {
                None
            }),
        head::is_unfinished_head(data@) ==> r is None,
{
    let mut parser = HttpRequestParser::new();
    parser.extend(data);
    assert(parser@ =~= data@);
    if !parser.is_complete() {
        return None;
    }
    let parsed = parser.parse();
    proof {
        assert forall|req: HttpRequestView| #[trigger]
            is_plain_request(req) && data@ == types::written_request(req) implies recognised(data@)
            == Some(req) by {
            assert(parsed matches Ok(read) && read@ == req);
        }
        assert forall|h: head::RequestHeadView| #[trigger]
            head::is_plain_head(h, head::MAX_HEADERS as nat) && head::head_bytes(h).is_prefix_of(
                data@,
            ) implies recognised(data@) == Some(request_of(h, data@)) by {
            assert(parsed matches Ok(read) && read@ == request_of(h, data@));
        }
    }
    match parsed {
        Ok(request) => Some(request),
        Err(_) => None,
    }
}

/// Makes a request of what reading its head came to.
pub fn request_from_head(parsed: head::HeadStatus<head::RequestHead>, buf: &[u8]) -> (r: Result<
    HttpRequest,
    ParseError,
>)
    requires
        parsed matches head::HeadStatus::Complete(h) ==> h.len <= buf@.len() && h.headers@.len()
            <= head::MAX_HEADERS,
    ensures
        request_outcome(parsed@, buf@, r),
{
    match parsed {
        head::HeadStatus::Complete(h) => {
            let version = message::version_of(h.version);
            let header_map = message::store_fields(&h.headers);
            let body = message::take_body(buf, h.len);
            let connection_type = connection::determine_connection_type(
                &header_map,
                version.as_str(),
            );
            let method = match h.method {
                Some(m) => m,
                None => "GET".to_owned(),
            };
            let path = match h.path {
                Some(p) => p,
                None => "/".to_owned(),
            };
            Ok(HttpRequest { method, path, version, headers: header_map, body, connection_type })
        },
        head::HeadStatus::Partial => Err(
            ParseError {
                kind: ParseErrorKind::WouldBlock,
                message: "불완전한 HTTP 요청".to_owned(),
            },
        ),
        head::HeadStatus::Invalid(m) => Err(
            ParseError { kind: ParseErrorKind::InvalidData, message: m },
        ),
    }
}

/// A request that reads back as it is written: its parts are of the forms that
/// a head allows, its header names differ, their values are visible and not
/// padded, a body has bytes, and the connection type is the one its fields
/// give.
pub open spec fn is_plain_request(req: HttpRequestView) -> bool {
    &&& headers::is_token(req.method)
    &&& head::is_target(req.path)
    &&& req.version == "HTTP/1.0"@ || req.version == "HTTP/1.1"@
    &&& message::are_plain_fields(req.headers)
    &&& req.body matches Some(b) ==> b.len() > 0
    &&& req.connection_type == connection::connection_type_of(req.headers, req.version)
}

/// The head of a request that reads back as it is written.
pub open spec fn plain_head(req: HttpRequestView) -> head::RequestHeadView {
    let h = head::RequestHeadView {
        len: 0,
        method: Some(req.method),
        path: Some(req.path),
        version: Some(message::minor_of(req.version)),
        headers: req.headers,
    };
    head::RequestHeadView { len: head::head_bytes(h).len(), ..h }
}

/// Reading the plain head of a written request gives the request back.
proof fn lemma_plain_request(req: HttpRequestView)
    requires
        is_plain_request(req),
    ensures
        head::is_plain_head(plain_head(req), head::MAX_HEADERS as nat),
        head::head_bytes(plain_head(req)).is_prefix_of(types::written_request(req)),
        request_of(plain_head(req), types::written_request(req)) == req,
{
    let h = plain_head(req);
    let buf = types::written_request(req);
    message::lemma_versions_differ();
    message::lemma_plain_fields(req.headers);
    let bytes = head::head_bytes(h);
    assert(buf == bytes + types::body_bytes(req.body));
    assert(buf.subrange(0, bytes.len() as int) =~= bytes);
    assert(buf.skip(bytes.len() as int) =~= types::body_bytes(req.body));
    assert(request_of(h, buf) =~= req);
}

impl HttpRequestParser {
    /// A parser that has seen nothing.
    pub fn new() -> (r: Self)
        ensures
            r@ == Seq::<u8>::empty(),
    {
        Self { buf: buffer::new_buffer(buffer::INITIAL_CAPACITY) }
    }

    /// Adds what arrived to the buffer.
    pub fn extend(&mut self, data: &[u8])
        requires
            old(self)@.len() + data@.len() <= usize::MAX / 4,
        ensures
            final(self)@ == old(self)@ + data@,
    {
        buffer::extend_buffer(&mut self.buf, data);
    }

    /// Whether the request has fully arrived.
    pub fn is_complete(&self) -> (r: bool)
        ensures
            r == completeness::request_complete(self@),
    {
        completeness::is_request_complete(buffer::buffer_slice(&self.buf))
    }

    /// Parses the request. What was written in the plain way is read back as
    /// it was; what begins with a plain head is read by that head, whatever
    /// letter case its names are in; and while the head is unfinished, more has
    /// to arrive.
    pub fn parse(&self) -> (r: Result<HttpRequest, ParseError>)
        ensures
            request_outcome(head::parsed_request(self@, head::MAX_HEADERS as nat), self@, r),
            forall|req: HttpRequestView| #[trigger]
                is_plain_request(req) && self@ == types::written_request(req) ==> (r matches Ok(
                    read,
                ) && read@ == req),
            forall|h: head::RequestHeadView| #[trigger]
                head::is_plain_head(h, head::MAX_HEADERS as nat) && head::head_bytes(
                    h,
                ).is_prefix_of(self@) ==> (r matches Ok(read) && read@ == request_of(h, self@)),
            head::is_unfinished_head(self@) ==> (r matches Err(e) && e.kind
                == ParseErrorKind::WouldBlock && e.message@ == "불완전한 HTTP 요청"@),
    {
        let buf = buffer::buffer_slice(&self.buf);
        let parsed = head::parse_request_head(buf, head::MAX_HEADERS);
        let ghost seen = parsed@;
        let r = request_from_head(parsed, buf);
        proof {
            assert forall|req: HttpRequestView| #[trigger]
                is_plain_request(req) && self@ == types::written_request(req) implies (r matches Ok(
                read,
            ) && read@ == req) by {
                lemma_plain_request(req);
                assert(seen == head::HeadView::Complete(plain_head(req)));
            }
        }
        r
    }

    /// Whether what arrived is a request for a WebSocket.
    pub fn is_websocket_upgrade(&self) -> (r: bool)
        ensures
            r == upgrade_requested(self@),
            forall|req: HttpRequestView| #[trigger]
                is_plain_request(req) && self@ == types::written_request(req) ==> r
                    == upgrade::asks_for_websocket(req.headers),
            forall|h: head::RequestHeadView| #[trigger]
                head::is_plain_head(h, head::MAX_HEADERS as nat) && head::head_bytes(
                    h,
                ).is_prefix_of(self@) ==> r == upgrade::asks_for_websocket(
                    message::stored_fields(h.headers),
                ),
            head::is_unfinished_head(self@) ==> !r,
    {
        match self.parse() {
            Ok(req) => upgrade::is_websocket_upgrade_request(&req.headers),
            Err(_) => false,
        }
    }

    /// What is in the buffer.
    pub fn get_buffer(&self) -> (r: &[u8])
        ensures
            r@ == self@,
    {
        buffer::buffer_slice(&self.buf)
    }

    /// Empties the buffer.
    pub fn clear(&mut self)
        ensures
            final(self)@ == Seq::<u8>::empty(),
    {
        buffer::clear_buffer(&mut self.buf);
    }
}

// ---------------------------------------------------------------------------
// Laws
// ---------------------------------------------------------------------------

/// A request is read from its head and what follows: the method, the target and
/// the version are those of the request line, the fields are those of the
/// lines, and what follows the head, if anything does, is the body. A head may
/// have up to 64 lines.
pub proof fn requests_are_read_from_their_heads(h: head::RequestHeadView, rest: Seq<u8>)
    requires
        head::is_plain_head(h, 64),
    ensures
        head::is_plain_head(h, head::MAX_HEADERS as nat),
        ({
            let req = request_of(h, head::head_bytes(h) + rest);
            &&& Some(req.method) == h.method
            &&& Some(req.path) == h.path
            &&& h.version == Some(0u8) ==> req.version == "HTTP/1.0"@
            &&& h.version == Some(1u8) ==> req.version == "HTTP/1.1"@
            &&& req.headers == message::stored_fields(h.headers)
            &&& rest.len() == 0 ==> req.body is None
            &&& rest.len() > 0 ==> req.body == Some(rest)
            &&& req.connection_type == connection::connection_type_of(req.headers, req.version)
        }),
{
    let buf = head::head_bytes(h) + rest;
    assert(buf.skip(head::head_bytes(h).len() as int) =~= rest);
}

/// Bytes are a whole request exactly where they have fully arrived and begin with a
/// head; they ask for a WebSocket where that head does, arrived or not.
pub proof fn whole_requests_are_recognised(buf: Seq<u8>, h: head::RequestHeadView)
    ensures
        !completeness::request_complete(buf) ==> recognised(buf) is None,
        completeness::request_complete(buf) && head::parsed_request(buf, 64)
            == head::HeadView::Complete(h) ==> recognised(buf) == Some(request_of(h, buf)),
        !(head::parsed_request(buf, 64) is Complete) ==> recognised(buf) is None
            && !upgrade_requested(buf),
        head::parsed_request(buf, 64) == head::HeadView::Complete(h) ==> upgrade_requested(buf)
            == upgrade::asks_for_websocket(message::stored_fields(h.headers)),
{
}

/// A head that names no method or no target stands for `GET` and `/`.
pub proof fn heads_have_defaults(h: head::RequestHeadView, buf: Seq<u8>)
    ensures
        h.method is None ==> request_of(h, buf).method == "GET"@,
        h.path is None ==> request_of(h, buf).path == "/"@,
        h.version is None ==> request_of(h, buf).version == "HTTP/1.1"@,
        h.method matches Some(m) ==> request_of(h, buf).method == m,
        h.path matches Some(p) ==> request_of(h, buf).path == p,
{
}

/// A head that is there gives the request; one that is not whole asks for more, and what
/// is no head is refused with what was found wrong.
pub proof fn heads_decide_the_outcome(
    parsed: head::HeadView<head::RequestHeadView>,
    buf: Seq<u8>,
    r: Result<HttpRequest, ParseError>,
)
    requires
        request_outcome(parsed, buf, r),
    ensures
        parsed is Complete ==> r is Ok,
        parsed matches head::HeadView::Complete(h) ==> r->Ok_0@ == request_of(h, buf),
        parsed is Partial ==> r is Err && r->Err_0.kind == ParseErrorKind::WouldBlock,
        parsed matches head::HeadView::Invalid(m) ==> r is Err && r->Err_0.kind
            == ParseErrorKind::InvalidData && r->Err_0.message@ == m,
        r is Err && r->Err_0.kind == ParseErrorKind::WouldBlock ==> r->Err_0.message@
            == "불완전한 HTTP 요청"@,
{
}

/// A request reads back as it is written where its method is a token, its target is
/// ASCII without blanks and control characters, its version is one of the two, its
/// fields are plain, a body has bytes, and the connection type is the one its fields
/// give.
pub proof fn requests_of_plain_parts_are_plain(req: HttpRequestView)
    requires
        headers::is_token(req.method),
        req.path.len() > 0,
        forall|i: int| 0 <= i < req.path.len() ==> '!' <= #[trigger] req.path[i] <= '~',
        req.version == "HTTP/1.0"@ || req.version == "HTTP/1.1"@,
        message::are_plain_fields(req.headers),
        req.body matches Some(b) ==> b.len() > 0,
        req.connection_type == connection::connection_type_of(req.headers, req.version),
    ensures
        is_plain_request(req),
{
    let target = req.path;
    assert(vstd::utf8::is_ascii_chars(target)) by {
        assert forall|i: int| 0 <= i < target.len() implies '\0' <= #[trigger] target[i]
            <= '\u{7f}' by {}
    }
    vstd::utf8::is_ascii_chars_encode_utf8(target);
    assert forall|i: int| 0 <= i < vstd::utf8::encode_utf8(target).len() implies
        head::is_target_byte(#[trigger] vstd::utf8::encode_utf8(target)[i]) by {
        assert(vstd::utf8::encode_utf8(target)[i] == target[i] as u8);
    }
}

} // verus!
