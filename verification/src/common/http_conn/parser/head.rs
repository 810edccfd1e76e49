//! Message heads, read by `httparse`.

use crate::common::http_conn::headers;
use crate::common::http_conn::headers::RawHeader;
use crate::common::http_conn::wire;
use vstd::prelude::*;

verus! {

/// How many header lines a head may have.
pub const MAX_HEADERS: usize = 64;

/// What reading a head comes to.
#[derive(Debug)]
pub enum HeadStatus<H> {
    /// The head is there.
    Complete(H),
    /// The head has not fully arrived.
    Partial,
    /// The bytes are no head; the text says why.
    Invalid(String),
}

/// The head of a request.
#[derive(Debug)]
pub struct RequestHead {
    /// How many bytes the head takes.
    pub len: usize,
    pub method: Option<String>,
    pub path: Option<String>,
    /// The minor version.
    pub version: Option<u8>,
    pub headers: Vec<RawHeader>,
}

/// The head of a response.
#[derive(Debug)]
pub struct ResponseHead {
    /// How many bytes the head takes.
    pub len: usize,
    /// The minor version.
    pub version: Option<u8>,
    pub code: Option<u16>,
    pub reason: Option<String>,
    pub headers: Vec<RawHeader>,
}

/// What a `HeadStatus` holds.
pub enum HeadView<H> {
    Complete(H),
    Partial,
    Invalid(Seq<char>),
}

/// What a `RequestHead` holds.
#[verifier::ext_equal]
pub struct RequestHeadView {
    pub len: nat,
    pub method: Option<Seq<char>>,
    pub path: Option<Seq<char>>,
    pub version: Option<u8>,
    pub headers: Seq<(Seq<char>, Seq<u8>)>,
}

/// What a `ResponseHead` holds.
#[verifier::ext_equal]
pub struct ResponseHeadView {
    pub len: nat,
    pub version: Option<u8>,
    pub code: Option<u16>,
    pub reason: Option<Seq<char>>,
    pub headers: Seq<(Seq<char>, Seq<u8>)>,
}

/// The characters of a text, if there is one.
pub open spec fn text_view(s: Option<String>) -> Option<Seq<char>> {
    match s {
        Some(t) => Some(t@),
        None => None,
    }
}

impl View for RequestHead {
    type V = RequestHeadView;

    open spec fn view(&self) -> RequestHeadView {
        RequestHeadView {
            len: self.len as nat,
            method: text_view(self.method),
            path: text_view(self.path),
            version: self.version,
            headers: headers::raw_fields(self.headers@),
        }
    }
}

impl View for ResponseHead {
    type V = ResponseHeadView;

    open spec fn view(&self) -> ResponseHeadView {
        ResponseHeadView {
            len: self.len as nat,
            version: self.version,
            code: self.code,
            reason: text_view(self.reason),
            headers: headers::raw_fields(self.headers@),
        }
    }
}

impl<H: View> View for HeadStatus<H> {
    type V = HeadView<H::V>;

    open spec fn view(&self) -> HeadView<H::V> {
        match self {
            HeadStatus::Complete(h) => HeadView::Complete(h@),
            HeadStatus::Partial => HeadView::Partial,
            HeadStatus::Invalid(s) => HeadView::Invalid(s@),
        }
    }
}

// ---------------------------------------------------------------------------
// Requests
// ---------------------------------------------------------------------------

/// What `httparse` makes of the bytes as a request with at most `max_headers`
/// header lines.
pub uninterp spec fn parsed_request(buf: Seq<u8>, max_headers: nat) -> HeadView<RequestHeadView>;

/// A byte that can stand in a request target.
pub open spec fn is_target_byte(b: u8) -> bool {
    b >= 33 && b != 127
}

/// Text that can be written as a request target.
pub open spec fn is_target(s: Seq<char>) -> bool {
    s.len() > 0 && forall|i: int|
        0 <= i < vstd::utf8::encode_utf8(s).len() ==> is_target_byte(
            #[trigger] vstd::utf8::encode_utf8(s)[i],
        )
}

/// A blank or a tab.
pub open spec fn is_blank(b: u8) -> bool {
    b == 32 || b == 9
}

/// A header value that reads back as it is written: it neither begins nor ends
/// with a blank.
pub open spec fn is_plain_value(v: Seq<u8>) -> bool {
    headers::is_storable_value(v) && (v.len() > 0 ==> !is_blank(v[0]) && !is_blank(v.last()))
}

/// A header field that reads back as it is written.
pub open spec fn is_plain_field(field: (Seq<char>, Seq<u8>)) -> bool {
    headers::is_token(field.0) && is_plain_value(field.1)
}

/// How the minor version is written.
pub open spec fn minor_version(minor: u8) -> Seq<char> {
    if minor == 0 {
        "HTTP/1.0"@
    } else {
        "HTTP/1.1"@
    }
}

/// The head as it is written.
pub open spec fn head_bytes(head: RequestHeadView) -> Seq<u8> {
    wire::request_head(
        head.method->Some_0,
        head.path->Some_0,
        minor_version(head.version->Some_0),
        head.headers,
    )
}

/// A head that reads back as it is written.
pub open spec fn is_plain_head(head: RequestHeadView, max_headers: nat) -> bool {
    &&& head.method is Some && headers::is_token(head.method->Some_0)
    &&& head.path is Some && is_target(head.path->Some_0)
    &&& head.version is Some && head.version->Some_0 <= 1
    &&& head.headers.len() <= max_headers
    &&& forall|i: int| 0 <= i < head.headers.len() ==> is_plain_field(#[trigger] head.headers[i])
    &&& head.len == head_bytes(head).len()
}

/// The bytes are the beginning of a head that reads back as it is written, and
/// not the whole of it.
pub open spec fn is_unfinished_head(buf: Seq<u8>) -> bool {
    exists|h: RequestHeadView| #[trigger]
        is_plain_head(h, MAX_HEADERS as nat) && buf.len() < head_bytes(h).len()
            && buf.is_prefix_of(head_bytes(h))
}

/// `httparse::Request::parse` reads a request head. Besides naming the result,
/// the contract says that the head lies within the bytes, that it has no more
/// header lines than were allowed, that a head written in the plain way is
/// read as what was written, whatever follows it, and that the beginning of
/// such a head is a partial one.
#[verifier::external_body]
pub(crate) fn parse_request_head(buf: &[u8], max_headers: usize) -> (r: HeadStatus<RequestHead>)
    requires
        max_headers <= MAX_HEADERS,
    ensures
        r@ == parsed_request(buf@, max_headers as nat),
        r matches HeadStatus::Complete(h) ==> h.len <= buf@.len() && h.headers@.len()
            <= max_headers,
        forall|h: RequestHeadView| #[trigger]
            is_plain_head(h, max_headers as nat) && head_bytes(h).is_prefix_of(buf@) ==> r@
                == HeadView::Complete(h),
        forall|h: RequestHeadView| #[trigger]
            is_plain_head(h, max_headers as nat) && buf@.len() < head_bytes(h).len()
                && buf@.is_prefix_of(head_bytes(h)) ==> r is Partial,
{
    let mut lines = vec![httparse::EMPTY_HEADER; max_headers];
    let mut req = httparse::Request::new(&mut lines);
    match req.parse(buf) {
        Ok(httparse::Status::Complete(len)) => HeadStatus::Complete(RequestHead {
            len,
            method: req.method.map(|s| s.to_string()),
            path: req.path.map(|s| s.to_string()),
            version: req.version,
            headers: req.headers.iter().map(|h| RawHeader { name: h.name.to_string(), value: h.value.to_vec() }).collect(),
        }),
        Ok(httparse::Status::Partial) => HeadStatus::Partial,
        Err(e) => HeadStatus::Invalid(e.to_string()),
    }
}

// ---------------------------------------------------------------------------
// Responses
// ---------------------------------------------------------------------------

/// What `httparse` makes of the bytes as a response with at most
/// `max_headers` header lines.
pub uninterp spec fn parsed_response(buf: Seq<u8>, max_headers: nat) -> HeadView<ResponseHeadView>;

/// Text that can be written as the reason of a status.
pub open spec fn is_reason(s: Seq<char>) -> bool {
    forall|i: int| 0 <= i < s.len() ==> ' ' <= #[trigger] s[i] <= '~' || s[i] == '\t'
}

/// The head as it is written.
pub open spec fn response_head_bytes(head: ResponseHeadView) -> Seq<u8> {
    wire::response_head(
        minor_version(head.version->Some_0),
        head.code->Some_0,
        head.reason->Some_0,
        head.headers,
    )
}

/// A head that reads back as it is written.
pub open spec fn is_plain_response_head(head: ResponseHeadView, max_headers: nat) -> bool {
    &&& head.version is Some && head.version->Some_0 <= 1
    &&& head.code is Some && head.code->Some_0 <= 999
    &&& head.reason is Some && is_reason(head.reason->Some_0)
    &&& head.headers.len() <= max_headers
    &&& forall|i: int| 0 <= i < head.headers.len() ==> is_plain_field(#[trigger] head.headers[i])
    &&& head.len == response_head_bytes(head).len()
}

/// The bytes are the beginning of a head that reads back as it is written, and
/// not the whole of it.
pub open spec fn is_unfinished_response_head(buf: Seq<u8>) -> bool {
    exists|h: ResponseHeadView| #[trigger]
        is_plain_response_head(h, MAX_HEADERS as nat) && buf.len() < response_head_bytes(h).len()
            && buf.is_prefix_of(response_head_bytes(h))
}

/// `httparse::Response::parse` reads a response head. Besides naming the
/// result, the contract says that the head lies within the bytes, that it has
/// no more header lines than were allowed, that bytes after a head that is
/// there change nothing, that a head written in the plain way is read as what
/// was written, whatever follows it, and that the beginning of such a head is
/// a partial one.
#[verifier::external_body]
pub(crate) fn parse_response_head(buf: &[u8], max_headers: usize) -> (r: HeadStatus<ResponseHead>)
    requires
        max_headers <= MAX_HEADERS,
    ensures
        r@ == parsed_response(buf@, max_headers as nat),
        r matches HeadStatus::Complete(h) ==> h.len <= buf@.len() && h.headers@.len()
            <= max_headers,
        r is Complete ==> forall|more: Seq<u8>| #[trigger]
            parsed_response(buf@ + more, max_headers as nat) == r@,
        forall|h: ResponseHeadView| #[trigger]
            is_plain_response_head(h, max_headers as nat) && response_head_bytes(h).is_prefix_of(
                buf@,
            ) ==> r@ == HeadView::Complete(h),
        forall|h: ResponseHeadView| #[trigger]
            is_plain_response_head(h, max_headers as nat) && buf@.len() < response_head_bytes(
                h,
            ).len() && buf@.is_prefix_of(response_head_bytes(h)) ==> r is Partial,
{
    let mut lines = vec![httparse::EMPTY_HEADER; max_headers];
    let mut res = httparse::Response::new(&mut lines);
    match res.parse(buf) {
        Ok(httparse::Status::Complete(len)) => HeadStatus::Complete(ResponseHead {
            len,
            version: res.version,
            code: res.code,
            reason: res.reason.map(|s| s.to_string()),
            headers: res.headers.iter().map(|h| RawHeader { name: h.name.to_string(), value: h.value.to_vec() }).collect(),
        }),
        Ok(httparse::Status::Partial) => HeadStatus::Partial,
        Err(e) => HeadStatus::Invalid(e.to_string()),
    }
}

// ---------------------------------------------------------------------------
// Laws
// ---------------------------------------------------------------------------

/// Where nothing has arrived, a head is unfinished.
pub proof fn nothing_is_an_unfinished_head()
    ensures
        is_unfinished_head(Seq::empty()),
        is_unfinished_response_head(Seq::empty()),
{
    reveal_strlit("GET");
    reveal_strlit("/");
    assert(vstd::utf8::is_ascii_chars("/"@));
    vstd::utf8::is_ascii_chars_encode_utf8("/"@);
    let h = RequestHeadView {
        len: 0,
        method: Some("GET"@),
        path: Some("/"@),
        version: Some(1u8),
        headers: Seq::empty(),
    };
    let h = RequestHeadView { len: head_bytes(h).len(), ..h };
    assert forall|i: int| 0 <= i < vstd::utf8::encode_utf8("/"@).len() implies is_target_byte(
        #[trigger] vstd::utf8::encode_utf8("/"@)[i],
    ) by {
        assert(vstd::utf8::encode_utf8("/"@)[i] == "/"@[i] as u8);
    }
    assert(is_plain_head(h, MAX_HEADERS as nat));
    assert(Seq::<u8>::empty().is_prefix_of(head_bytes(h)));
    let s = ResponseHeadView {
        len: 0,
        version: Some(1u8),
        code: Some(200u16),
        reason: Some(Seq::empty()),
        headers: Seq::empty(),
    };
    let s = ResponseHeadView { len: response_head_bytes(s).len(), ..s };
    assert(is_plain_response_head(s, MAX_HEADERS as nat));
    assert(Seq::<u8>::empty().is_prefix_of(response_head_bytes(s)));
}

/// A head is plain where its method is a token, its target is ASCII without blanks and
/// control characters, its version is one of the two, and it has up to so many lines,
/// each a token and a value without control bytes that is not padded.
pub proof fn heads_of_plain_parts_are_plain(
    method: Seq<char>,
    target: Seq<char>,
    minor: u8,
    fields: Seq<(Seq<char>, Seq<u8>)>,
    max_headers: nat,
    len: nat,
)
    requires
        headers::is_token(method),
        target.len() > 0,
        forall|i: int| 0 <= i < target.len() ==> '!' <= #[trigger] target[i] <= '~',
        minor <= 1,
        fields.len() <= max_headers,
        forall|i: int| 0 <= i < fields.len() ==> headers::is_token((#[trigger] fields[i]).0),
        forall|i: int, k: int|
            0 <= i < fields.len() && 0 <= k < fields[i].1.len() ==> (#[trigger] fields[i].1[k]) == 9
                || (32 <= fields[i].1[k] && fields[i].1[k] != 127),
        forall|i: int|
            0 <= i < fields.len() && (#[trigger] fields[i]).1.len() > 0 ==> fields[i].1[0] != 32
                && fields[i].1[0] != 9 && fields[i].1.last() != 32 && fields[i].1.last() != 9,
        len == wire::request_head(
            method,
            target,
            if minor == 0 {
                "HTTP/1.0"@
            } else {
                "HTTP/1.1"@
            },
            fields,
        ).len(),
    ensures
        is_plain_head(
            RequestHeadView {
                len,
                method: Some(method),
                path: Some(target),
                version: Some(minor),
                headers: fields,
            },
            max_headers,
        ),
{
    assert(vstd::utf8::is_ascii_chars(target)) by {
        assert forall|i: int| 0 <= i < target.len() implies '\0' <= #[trigger] target[i]
            <= '\u{7f}' by {}
    }
    vstd::utf8::is_ascii_chars_encode_utf8(target);
    assert forall|i: int| 0 <= i < vstd::utf8::encode_utf8(target).len() implies is_target_byte(
        #[trigger] vstd::utf8::encode_utf8(target)[i],
    ) by {
        assert(vstd::utf8::encode_utf8(target)[i] == target[i] as u8);
    }
    lemma_plain_fields_are_plain(fields);
}

proof fn lemma_plain_fields_are_plain(fields: Seq<(Seq<char>, Seq<u8>)>)
    requires
        forall|i: int| 0 <= i < fields.len() ==> headers::is_token((#[trigger] fields[i]).0),
        forall|i: int, k: int|
            0 <= i < fields.len() && 0 <= k < fields[i].1.len() ==> (#[trigger] fields[i].1[k]) == 9
                || (32 <= fields[i].1[k] && fields[i].1[k] != 127),
        forall|i: int|
            0 <= i < fields.len() && (#[trigger] fields[i]).1.len() > 0 ==> fields[i].1[0] != 32
                && fields[i].1[0] != 9 && fields[i].1.last() != 32 && fields[i].1.last() != 9,
    ensures
        forall|i: int| 0 <= i < fields.len() ==> is_plain_field(#[trigger] fields[i]),
{
    assert forall|i: int| 0 <= i < fields.len() implies is_plain_field(#[trigger] fields[i]) by {
        assert(headers::is_token(fields[i].0));
        assert forall|k: int| 0 <= k < fields[i].1.len() implies headers::is_value_byte(
            #[trigger] fields[i].1[k],
        ) by {}
    }
}

/// A response head is plain where its version is one of the two, its status has up to
/// three digits, its reason is printable, and it has up to so many lines, each a token
/// and a value without control bytes that is not padded.
pub proof fn response_heads_of_plain_parts_are_plain(
    minor: u8,
    code: u16,
    reason: Seq<char>,
    fields: Seq<(Seq<char>, Seq<u8>)>,
    max_headers: nat,
    len: nat,
)
    requires
        minor <= 1,
        code <= 999,
        forall|i: int| 0 <= i < reason.len() ==> ' ' <= #[trigger] reason[i] <= '~',
        fields.len() <= max_headers,
        forall|i: int| 0 <= i < fields.len() ==> headers::is_token((#[trigger] fields[i]).0),
        forall|i: int, k: int|
            0 <= i < fields.len() && 0 <= k < fields[i].1.len() ==> (#[trigger] fields[i].1[k]) == 9
                || (32 <= fields[i].1[k] && fields[i].1[k] != 127),
        forall|i: int|
            0 <= i < fields.len() && (#[trigger] fields[i]).1.len() > 0 ==> fields[i].1[0] != 32
                && fields[i].1[0] != 9 && fields[i].1.last() != 32 && fields[i].1.last() != 9,
        len == wire::response_head(
            if minor == 0 {
                "HTTP/1.0"@
            } else {
                "HTTP/1.1"@
            },
            code,
            reason,
            fields,
        ).len(),
    ensures
        is_plain_response_head(
            ResponseHeadView {
                len,
                version: Some(minor),
                code: Some(code),
                reason: Some(reason),
                headers: fields,
            },
            max_headers,
        ),
{
    lemma_plain_fields_are_plain(fields);
}

/// Every beginning of a plain head that is not the whole of it is unfinished.
pub proof fn beginnings_are_unfinished(h: RequestHeadView, s: ResponseHeadView, n: int)
    ensures
        is_plain_head(h, 64) && 0 <= n < head_bytes(h).len() ==> is_unfinished_head(
            head_bytes(h).take(n),
        ),
        is_plain_response_head(s, 64) && 0 <= n < response_head_bytes(s).len()
            ==> is_unfinished_response_head(response_head_bytes(s).take(n)),
{
    if is_plain_head(h, 64) && 0 <= n < head_bytes(h).len() {
        assert(is_plain_head(h, MAX_HEADERS as nat));
        assert(head_bytes(h).take(n).is_prefix_of(head_bytes(h)));
    }
    if is_plain_response_head(s, 64) && 0 <= n < response_head_bytes(s).len() {
        assert(is_plain_response_head(s, MAX_HEADERS as nat));
        assert(response_head_bytes(s).take(n).is_prefix_of(response_head_bytes(s)));
    }
}

} // verus!
