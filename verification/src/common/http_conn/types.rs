//! HTTP messages.

use crate::client::errors::ProxyError;
use crate::common::http_conn::connection;
use crate::common::http_conn::connection::ConnectionType;
use crate::common::http_conn::headers;
use crate::common::http_conn::upgrade;
use crate::common::http_conn::wire;
use crate::text;
use http::HeaderMap;
use vstd::prelude::*;

verus! {

/// An HTTP request.
#[derive(Debug)]
pub struct HttpRequest {
    pub method: String,
    pub path: String,
    pub version: String,
    pub headers: HeaderMap,
    pub body: Option<Vec<u8>>,
    pub connection_type: ConnectionType,
}

/// An HTTP response.
#[derive(Debug)]
pub struct HttpResponse {
    pub status: u16,
    pub reason: String,
    pub version: String,
    pub headers: HeaderMap,
    pub body: Option<Vec<u8>>,
    pub connection_type: ConnectionType,
}

/// What a request holds.
#[verifier::ext_equal]
pub struct HttpRequestView {
    pub method: Seq<char>,
    pub path: Seq<char>,
    pub version: Seq<char>,
    pub headers: Seq<(Seq<char>, Seq<u8>)>,
    pub body: Option<Seq<u8>>,
    pub connection_type: ConnectionType,
}

/// What a response holds.
#[verifier::ext_equal]
pub struct HttpResponseView {
    pub status: u16,
    pub reason: Seq<char>,
    pub version: Seq<char>,
    pub headers: Seq<(Seq<char>, Seq<u8>)>,
    pub body: Option<Seq<u8>>,
    pub connection_type: ConnectionType,
}

/// The bytes of a body, if there is one.
pub open spec fn body_view(body: Option<Vec<u8>>) -> Option<Seq<u8>> {
    match body {
        Some(b) => Some(b@),
        None => None,
    }
}

impl View for HttpRequest {
    type V = HttpRequestView;

    open spec fn view(&self) -> HttpRequestView {
        HttpRequestView {
            method: self.method@,
            path: self.path@,
            version: self.version@,
            headers: headers::header_fields(self.headers),
            body: body_view(self.body),
            connection_type: self.connection_type,
        }
    }
}

impl View for HttpResponse {
    type V = HttpResponseView;

    open spec fn view(&self) -> HttpResponseView {
        HttpResponseView {
            status: self.status,
            reason: self.reason@,
            version: self.version@,
            headers: headers::header_fields(self.headers),
            body: body_view(self.body),
            connection_type: self.connection_type,
        }
    }
}

/// The HTTP versions that a request can arrive with.
#[derive(Debug, Clone, Copy, PartialEq, Eq, Structural)]
pub enum HttpVersion {
    Http10,
    Http11,
    Http2,
    Http3,
    /// Any other version; it is written as HTTP/1.1.
    Other,
}

impl HttpVersion {
    /// How the version is written.
    pub open spec fn name(self) -> Seq<char> {
        match self {
            HttpVersion::Http10 => "HTTP/1.0"@,
            HttpVersion::Http11 => "HTTP/1.1"@,
            HttpVersion::Http2 => "HTTP/2.0"@,
            HttpVersion::Http3 => "HTTP/3.0"@,
            HttpVersion::Other => "HTTP/1.1"@,
        }
    }

    /// The version as it is written.
    pub fn as_text(self) -> (r: &'static str)
        ensures
            r@ == self.name(),
    {
        match self {
            HttpVersion::Http10 => "HTTP/1.0",
            HttpVersion::Http11 => "HTTP/1.1",
            HttpVersion::Http2 => "HTTP/2.0",
            HttpVersion::Http3 => "HTTP/3.0",
            HttpVersion::Other => "HTTP/1.1",
        }
    }
}

/// A body that was read: one without bytes counts as none.
pub open spec fn kept_body(body: Option<Seq<u8>>) -> Option<Seq<u8>> {
    match body {
        Some(b) => if b.len() == 0 {
            None
        } else {
            Some(b)
        },
        None => None,
    }
}

/// The request that is put together from parts.
pub open spec fn request_of_parts(
    method: Seq<char>,
    path: Seq<char>,
    version: HttpVersion,
    fields: Seq<(Seq<char>, Seq<u8>)>,
    body: Option<Seq<u8>>,
) -> HttpRequestView {
    HttpRequestView {
        method,
        path,
        version: version.name(),
        headers: fields,
        body: kept_body(body),
        connection_type: connection::connection_type_of(fields, version.name()),
    }
}

/// A request that is put together without its body has none, and is otherwise
/// the one that is put together with it.
pub proof fn requests_without_their_body(
    method: Seq<char>,
    path: Seq<char>,
    version: HttpVersion,
    fields: Seq<(Seq<char>, Seq<u8>)>,
    body: Option<Seq<u8>>,
)
    ensures
        request_of_parts(method, path, version, fields, None) == (HttpRequestView {
            body: None,
            ..request_of_parts(method, path, version, fields, body)
        }),
{
}

impl HttpRequest {
    /// Puts a request together from the parts that a web framework hands over.
    /// The body is `None` where it was not read or could not be read.
    pub fn from_parts(
        method: String,
        path: String,
        version: HttpVersion,
        headers: HeaderMap,
        body: Option<Vec<u8>>,
    ) -> (r: HttpRequest)
        ensures
            r@ == request_of_parts(
                method@,
                path@,
                version,
                headers::header_fields(headers),
                body_view(body),
            ),
    {
        let version_text = version.as_text().to_owned();
        let connection_type = connection::determine_connection_type(
            &headers,
            version_text.as_str(),
        );
        let kept = match body {
            Some(b) => if b.len() == 0 {
                None
            } else {
                Some(b)
            },
            None => None,
        };
        HttpRequest { method, path, version: version_text, headers, body: kept, connection_type }
    }

    /// Whether the request asks for a WebSocket.
    pub fn is_websocket_upgrade(&self) -> (r: bool)
        ensures
            r == upgrade::asks_for_websocket(self@.headers),
    {
        upgrade::is_websocket_upgrade_request(&self.headers)
    }
}

impl HttpResponse {
    /// Whether the response grants a WebSocket.
    pub fn is_websocket_upgrade(&self) -> (r: bool)
        ensures
            r == upgrade::grants_websocket(self@.status, self@.headers),
    {
        upgrade::is_websocket_upgrade_response(self.status, &self.headers)
    }
}

// ---------------------------------------------------------------------------
// Writing requests
// ---------------------------------------------------------------------------

/// A header value as it is written: its bytes where they are visible text,
/// nothing elsewhere.
pub open spec fn printed_value(value: Seq<u8>) -> Seq<u8> {
    if headers::is_visible(value) {
        value
    } else {
        Seq::empty()
    }
}

/// The header fields as they are written.
pub open spec fn printed_fields(fields: Seq<(Seq<char>, Seq<u8>)>) -> Seq<(Seq<char>, Seq<u8>)> {
    fields.map_values(|f: (Seq<char>, Seq<u8>)| (f.0, printed_value(f.1)))
}

/// The bytes of a body, or none.
pub open spec fn body_bytes(body: Option<Seq<u8>>) -> Seq<u8> {
    match body {
        Some(b) => b,
        None => Seq::empty(),
    }
}

/// A request as it is written.
pub open spec fn written_request(req: HttpRequestView) -> Seq<u8> {
    wire::request_head(req.method, req.path, req.version, printed_fields(req.headers)) + body_bytes(
        req.body,
    )
}

/// The target of a request: its path, and the query after a question mark.
pub open spec fn full_path(path: Seq<char>, query: Option<Seq<char>>) -> Seq<char> {
    match query {
        Some(q) => path + seq!['?'] + q,
        None => path,
    }
}

/// The parts of a request as they are written.
pub open spec fn written_parts(
    method: Seq<char>,
    path: Seq<char>,
    query: Option<Seq<char>>,
    version: HttpVersion,
    fields: Seq<(Seq<char>, Seq<u8>)>,
    body: Option<Seq<u8>>,
) -> Seq<u8> {
    wire::request_head(method, full_path(path, query), version.name(), printed_fields(fields))
        + body_bytes(body)
}

fn visible_bytes(v: &[u8]) -> (r: bool)
    ensures
        r == headers::is_visible(v@),
{
    let mut i: usize = 0;
    while i < v.len()
        invariant
            i <= v@.len(),
            forall|k: int| 0 <= k < i ==> headers::is_visible_byte(#[trigger] v@[k]),
        decreases v@.len() - i,
    {
        let b = v[i];
        if !((32 <= b && b < 127) || b == 9) {
            assert(!headers::is_visible_byte(v@[i as int]));
            return false;
        }
        i += 1;
    }
    true
}

fn push_crlf(out: &mut Vec<u8>)
    ensures
        final(out)@ == old(out)@ + wire::crlf(),
{
    out.push(13);
    out.push(10);
    assert(out@ =~= old(out)@ + wire::crlf());
}

fn push_text(out: &mut Vec<u8>, s: &str)
    ensures
        final(out)@ == old(out)@ + vstd::utf8::encode_utf8(s@),
{
    out.extend_from_slice(s.as_bytes());
    assert(out@ =~= old(out)@ + vstd::utf8::encode_utf8(s@));
}

fn push_field(out: &mut Vec<u8>, header: &headers::RawHeader)
    ensures
        final(out)@ == old(out)@ + wire::field_line((header@.0, printed_value(header@.1))),
{
    push_text(out, header.name.as_str());
    out.push(58);
    out.push(32);
    if visible_bytes(header.value.as_slice()) {
        out.extend_from_slice(header.value.as_slice());
    }
    push_crlf(out);
    assert(out@ =~= old(out)@ + wire::field_line((header@.0, printed_value(header@.1))));
}

/// Writes a request head.
fn push_request_head(
    out: &mut Vec<u8>,
    method: &str,
    target: &str,
    version: &str,
    map: &HeaderMap,
)
    ensures
        final(out)@ == old(out)@ + wire::request_head(
            method@,
            target@,
            version@,
            printed_fields(headers::header_fields(*map)),
        ),
{
    let ghost start = out@;
    push_text(out, method);
    out.push(32);
    push_text(out, target);
    out.push(32);
    push_text(out, version);
    push_crlf(out);
    let ghost line = wire::request_line(method@, target@, version@);
    assert(out@ =~= start + line);
    let list = headers::list_headers(map);
    let ghost fields = headers::header_fields(*map);
    let ghost printed = printed_fields(fields);
    assert(headers::raw_fields(list@) == fields);
    let mut i: usize = 0;
    assert(out@ =~= start + line + wire::field_lines(printed.take(0)));
    while i < list.len()
        invariant
            i <= list@.len(),
            fields == headers::raw_fields(list@),
            printed == printed_fields(fields),
            out@ == start + line + wire::field_lines(printed.take(i as int)),
        decreases list@.len() - i,
    {
        let ghost before = out@;
        push_field(out, &list[i]);
        proof {
            assert(fields[i as int] == list@[i as int]@);
            assert(printed.take(i + 1).drop_last() =~= printed.take(i as int));
            assert(printed.take(i + 1).last() == printed[i as int]);
            assert(out@ =~= start + line + wire::field_lines(printed.take(i + 1)));
        }
        i += 1;
    }
    assert(printed.take(i as int) =~= printed);
    push_crlf(out);
    assert(out@ =~= start + wire::request_head(method@, target@, version@, printed));
}

/// Writes a request as raw HTTP bytes. It never fails.
pub fn serialize_http_request_to_bytes(req: &HttpRequest) -> (r: Result<Vec<u8>, ProxyError>)
    ensures
        r is Ok,
        r->Ok_0@ == written_request(req@),
{
    let mut out: Vec<u8> = Vec::new();
    push_request_head(
        &mut out,
        req.method.as_str(),
        req.path.as_str(),
        req.version.as_str(),
        &req.headers,
    );
    if let Some(body) = &req.body {
        out.extend_from_slice(body.as_slice());
    }
    assert(out@ =~= written_request(req@));
    Ok(out)
}

/// Writes the parts of a request as raw HTTP bytes, query included. The body
/// is `None` where it could not be read. It never fails.
pub fn serialize_request_to_bytes(
    method: &str,
    path: &str,
    query: Option<&str>,
    version: HttpVersion,
    headers: &HeaderMap,
    body: Option<Vec<u8>>,
) -> (r: Result<Vec<u8>, ProxyError>)
    ensures
        r is Ok,
        r->Ok_0@ == wire::request_head(
            method@,
            full_path(
                path@,
                match query {
                    Some(q) => Some(q@),
                    None => None,
                },
            ),
            version.name(),
            printed_fields(headers::header_fields(*headers)),
        ) + body_bytes(body_view(body)),
        r->Ok_0@ == written_parts(
            method@,
            path@,
            match query {
                Some(q) => Some(q@),
                None => None,
            },
            version,
            headers::header_fields(*headers),
            body_view(body),
        ),
{
    let mut target = path.to_owned();
    if let Some(q) = query {
        target.push('?');
        target.append(q);
    }
    proof {
        if let Some(q) = query {
            assert(target@ =~= path@ + seq!['?'] + q@);
        }
    }
    let mut out: Vec<u8> = Vec::new();
    push_request_head(&mut out, method, target.as_str(), version.as_text(), headers);
    if let Some(bytes) = &body {
        out.extend_from_slice(bytes.as_slice());
    }
    assert(out@ =~= wire::request_head(
        method@,
        target@,
        version.name(),
        printed_fields(headers::header_fields(*headers)),
    ) + body_bytes(body_view(body)));
    Ok(out)
}

// ---------------------------------------------------------------------------
// Laws
// ---------------------------------------------------------------------------

/// A written request is its request line, a line for each field, an empty line and
/// its body, all of it; lines end with a carriage return and a line feed.
pub proof fn requests_are_written_in_lines(req: HttpRequestView)
    ensures
        written_request(req) == vstd::utf8::encode_utf8(req.method) + seq![32u8]
            + vstd::utf8::encode_utf8(req.path) + seq![32u8] + vstd::utf8::encode_utf8(req.version)
            + seq![13u8, 10u8] + wire::field_lines(printed_fields(req.headers)) + seq![13u8, 10u8]
            + (match req.body {
            Some(b) => b,
            None => Seq::empty(),
        }),
{
}

/// Every field is written, in its place and under its name: its value where that is
/// visible, nothing where it is not.
pub proof fn every_field_is_written(fields: Seq<(Seq<char>, Seq<u8>)>, i: int)
    requires
        0 <= i < fields.len(),
    ensures
        printed_fields(fields).len() == fields.len(),
        printed_fields(fields)[i].0 == fields[i].0,
        (forall|k: int|
            0 <= k < fields[i].1.len() ==> 32 <= #[trigger] fields[i].1[k] < 127 || fields[i].1[k]
                == 9) ==> printed_fields(fields)[i].1 == fields[i].1,
        (exists|k: int|
            0 <= k < fields[i].1.len() && !(32 <= #[trigger] fields[i].1[k] < 127
                || fields[i].1[k] == 9)) ==> printed_fields(fields)[i].1.len() == 0,
{
    let v = fields[i].1;
    if exists|k: int| 0 <= k < v.len() && !(32 <= #[trigger] v[k] < 127 || v[k] == 9) {
        let k = choose|k: int| 0 <= k < v.len() && !(32 <= #[trigger] v[k] < 127 || v[k] == 9);
        assert(!headers::is_visible_byte(v[k]));
    }
}

/// Writing the parts of a request is writing the request that they make; a query is
/// written behind the path and a question mark.
pub proof fn parts_are_written_as_their_request(
    method: Seq<char>,
    path: Seq<char>,
    query: Seq<char>,
    version: HttpVersion,
    fields: Seq<(Seq<char>, Seq<u8>)>,
    body: Option<Seq<u8>>,
)
    ensures
        written_parts(method, path, None, version, fields, body) == written_request(
            request_of_parts(method, path, version, fields, body),
        ),
        written_parts(method, path, Some(query), version, fields, body) == written_request(
            request_of_parts(method, path + seq!['?'] + query, version, fields, body),
        ),
{
    if let Some(b) = body {
        if b.len() == 0 {
            assert(b =~= Seq::empty());
        }
    }
}

/// A request is put together from its parts as they are: every body that has bytes
/// is kept, one without bytes counts as none, and the connection type follows the
/// fields and the version.
pub proof fn parts_make_their_request(
    method: Seq<char>,
    path: Seq<char>,
    version: HttpVersion,
    fields: Seq<(Seq<char>, Seq<u8>)>,
    body: Seq<u8>,
)
    ensures
        ({
            let req = request_of_parts(method, path, version, fields, Some(body));
            &&& req.method == method
            &&& req.path == path
            &&& req.version == version.name()
            &&& req.headers == fields
            &&& body.len() > 0 ==> req.body == Some(body)
            &&& body.len() == 0 ==> req.body is None
            &&& req.connection_type == connection::connection_type_of(fields, req.version)
        }),
        request_of_parts(method, path, version, fields, None).body is None,
{
}

/// Versions are written by their numbers; what is not known is written as HTTP/1.1.
pub proof fn versions_are_written_by_number()
    ensures
        HttpVersion::Http10.name() == seq!['H', 'T', 'T', 'P', '/', '1', '.', '0'],
        HttpVersion::Http11.name() == seq!['H', 'T', 'T', 'P', '/', '1', '.', '1'],
        HttpVersion::Http2.name() == seq!['H', 'T', 'T', 'P', '/', '2', '.', '0'],
        HttpVersion::Http3.name() == seq!['H', 'T', 'T', 'P', '/', '3', '.', '0'],
        HttpVersion::Other.name() == HttpVersion::Http11.name(),
{
    reveal_strlit("HTTP/1.0");
    reveal_strlit("HTTP/1.1");
    reveal_strlit("HTTP/2.0");
    reveal_strlit("HTTP/3.0");
}

} // verus!
