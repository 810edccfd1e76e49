//! Where a message ends: what its head says, and when it has arrived.

use crate::common::http_conn::headers;
use crate::common::http_conn::parser::completeness;
use crate::common::http_conn::parser::head;
use crate::common::http_conn::parser::message;
use crate::common::http_conn::parser::request;
use crate::common::http_conn::parser::response;
use crate::common::http_conn::types;
use crate::common::http_conn::types::{HttpRequestView, HttpResponseView};
use crate::common::http_conn::wire;
use crate::numbers;
use crate::text;
use vstd::prelude::*;

verus! {

/// The bytes hold no carriage return.
spec fn has_no_return(s: Seq<u8>) -> bool {
    forall|i: int| 0 <= i < s.len() ==> #[trigger] s[i] != 13
}

/// The bytes are whole lines, none of them empty.
spec fn is_lines(s: Seq<u8>) -> bool {
    &&& s.len() >= 3
    &&& s[s.len() - 2] == 13
    &&& s[s.len() - 1] == 10
    &&& forall|i: int| !#[trigger] text::occurs_at(s, completeness::head_end_mark(), i)
}

/// Where the end of a head stands, the bytes are those of the mark.
proof fn lemma_mark(s: Seq<u8>, i: int)
    requires
        text::occurs_at(s, completeness::head_end_mark(), i),
    ensures
        0 <= i,
        i + 4 <= s.len(),
        s[i] == 13,
        s[i + 1] == 10,
        s[i + 2] == 13,
        s[i + 3] == 10,
{
    let m = completeness::head_end_mark();
    let t = s.subrange(i, i + 4);
    assert(t == m);
    assert(t[0] == s[i] && t[1] == s[i + 1] && t[2] == s[i + 2] && t[3] == s[i + 3]);
    assert(m[0] == 13 && m[1] == 10 && m[2] == 13 && m[3] == 10);
}

proof fn lemma_first_line(x: Seq<u8>)
    requires
        x.len() > 0,
        has_no_return(x),
    ensures
        is_lines(x + wire::crlf()),
{
    let s = x + wire::crlf();
    assert forall|i: int| !#[trigger] text::occurs_at(s, completeness::head_end_mark(), i) by {
        if text::occurs_at(s, completeness::head_end_mark(), i) {
            lemma_mark(s, i);
            assert(s[i] == x[i]);
        }
    }
}

proof fn lemma_next_line(s: Seq<u8>, x: Seq<u8>)
    requires
        is_lines(s),
        x.len() > 0,
        has_no_return(x),
    ensures
        is_lines(s + (x + wire::crlf())),
{
    let t = s + (x + wire::crlf());
    let n = s.len() as int;
    assert forall|i: int| !#[trigger] text::occurs_at(t, completeness::head_end_mark(), i) by {
        if text::occurs_at(t, completeness::head_end_mark(), i) {
            lemma_mark(t, i);
            if i + 4 <= n {
                assert(t.subrange(i, i + 4) =~= s.subrange(i, i + 4));
                assert(text::occurs_at(s, completeness::head_end_mark(), i));
            } else if i == n - 3 {
                assert(t[i + 1] == s[n - 2]);
            } else if i == n - 2 {
                assert(t[i + 2] == x[0]);
            } else if i == n - 1 {
                assert(t[i] == s[n - 1]);
            } else {
                assert(t[i] == x[i - n]);
            }
        }
    }
}

/// An empty line after whole lines is the first end of a head.
proof fn lemma_empty_line(s: Seq<u8>, rest: Seq<u8>)
    requires
        is_lines(s),
    ensures
        text::find(s + wire::crlf() + rest, completeness::head_end_mark()) == Some(s.len() - 2),
{
    let m = completeness::head_end_mark();
    let t = s + wire::crlf() + rest;
    let n = s.len() as int;
    assert(t.subrange(n - 2, n + 2) =~= m);
    assert(text::occurs_at(t, m, n - 2));
    text::lemma_find_from(t, m, 0);
    let k = text::find(t, m)->Some_0;
    if k < n - 2 {
        lemma_mark(t, k);
        if k + 4 <= n {
            assert(t.subrange(k, k + 4) =~= s.subrange(k, k + 4));
            assert(text::occurs_at(s, m, k));
        } else {
            assert(t[k + 1] == s[n - 2]);
        }
    }
}

proof fn lemma_token_bytes(s: Seq<char>)
    requires
        headers::is_token(s),
    ensures
        has_no_return(vstd::utf8::encode_utf8(s)),
        vstd::utf8::encode_utf8(s).len() == s.len(),
{
    assert(vstd::utf8::is_ascii_chars(s)) by {
        assert forall|i: int| 0 <= i < s.len() implies '\0' <= #[trigger] s[i] <= '\u{7f}' by {
            assert(headers::is_token_char(s[i]));
        }
    }
    vstd::utf8::is_ascii_chars_encode_utf8(s);
    let b = vstd::utf8::encode_utf8(s);
    assert forall|i: int| 0 <= i < b.len() implies #[trigger] b[i] != 13 by {
        assert(headers::is_token_char(s[i]));
        assert(b[i] == s[i] as u8);
    }
}

proof fn lemma_version_bytes(version: Seq<char>)
    requires
        version == "HTTP/1.0"@ || version == "HTTP/1.1"@,
    ensures
        vstd::utf8::encode_utf8(version).len() == 8,
        vstd::utf8::encode_utf8(version)[0] == 72,
        forall|i: int|
            0 <= i < vstd::utf8::encode_utf8(version).len() ==> #[trigger] vstd::utf8::encode_utf8(
                version,
            )[i] < 128 && vstd::utf8::encode_utf8(version)[i] != 13 && vstd::utf8::encode_utf8(
                version,
            )[i] != 10,
{
    reveal_strlit("HTTP/1.0");
    reveal_strlit("HTTP/1.1");
    assert(vstd::utf8::is_ascii_chars(version));
    vstd::utf8::is_ascii_chars_encode_utf8(version);
    let b = vstd::utf8::encode_utf8(version);
    assert forall|i: int| 0 <= i < b.len() implies #[trigger] b[i] < 128 && b[i] != 13 && b[i]
        != 10 by {
        assert(b[i] == version[i] as u8);
    }
    assert(b[0] == version[0] as u8);
}

proof fn lemma_field_lines(start: Seq<u8>, fields: Seq<(Seq<char>, Seq<u8>)>)
    requires
        is_lines(start),
        forall|i: int| 0 <= i < fields.len() ==> head::is_plain_field(#[trigger] fields[i]),
    ensures
        is_lines(start + wire::field_lines(fields)),
    decreases fields.len(),
{
    if fields.len() == 0 {
        assert(start + wire::field_lines(fields) =~= start);
    } else {
        let before = fields.drop_last();
        assert forall|i: int| 0 <= i < before.len() implies head::is_plain_field(
            #[trigger] before[i],
        ) by {
            assert(before[i] == fields[i]);
        }
        lemma_field_lines(start, before);
        let last = fields.last();
        assert(head::is_plain_field(fields[fields.len() - 1]));
        lemma_token_bytes(last.0);
        let x = vstd::utf8::encode_utf8(last.0) + seq![58u8, 32u8] + last.1;
        let name = vstd::utf8::encode_utf8(last.0);
        assert forall|i: int| 0 <= i < x.len() implies #[trigger] x[i] != 13 by {
            if i < name.len() {
                assert(x[i] == name[i]);
            } else if i >= name.len() + 2 {
                assert(x[i] == last.1[i - name.len() - 2]);
                assert(headers::is_value_byte(last.1[i - name.len() - 2]));
            }
        }
        lemma_next_line(start + wire::field_lines(before), x);
        assert(start + wire::field_lines(fields) =~= start + wire::field_lines(before) + (x
            + wire::crlf()));
    }
}

/// The end of a head is where its empty line is.
proof fn lemma_head_end(
    first: Seq<u8>,
    fields: Seq<(Seq<char>, Seq<u8>)>,
    body: Seq<u8>,
)
    requires
        first.len() > 0,
        has_no_return(first),
        forall|i: int| 0 <= i < fields.len() ==> head::is_plain_field(#[trigger] fields[i]),
    ensures
        ({
            let head = first + wire::crlf() + wire::field_lines(fields) + wire::crlf();
            &&& text::find(head + body, completeness::head_end_mark()) == Some(head.len() - 4)
            &&& (head + body).take(head.len() - 4) == head.take(head.len() - 4)
        }),
{
    lemma_first_line(first);
    lemma_field_lines(first + wire::crlf(), fields);
    let lines = first + wire::crlf() + wire::field_lines(fields);
    let head = lines + wire::crlf();
    lemma_empty_line(lines, body);
    assert((head + body).take(head.len() - 4) =~= head.take(head.len() - 4));
}

/// The first line of a request without its end.
spec fn request_content(method: Seq<char>, path: Seq<char>, version: Seq<char>) -> Seq<u8> {
    vstd::utf8::encode_utf8(method) + seq![32u8] + vstd::utf8::encode_utf8(path) + seq![32u8]
        + vstd::utf8::encode_utf8(version)
}

proof fn lemma_request_content(method: Seq<char>, path: Seq<char>, version: Seq<char>)
    requires
        headers::is_token(method),
        head::is_target(path),
        version == "HTTP/1.0"@ || version == "HTTP/1.1"@,
    ensures
        request_content(method, path, version).len() > 0,
        has_no_return(request_content(method, path, version)),
        wire::request_line(method, path, version) == request_content(method, path, version)
            + wire::crlf(),
        vstd::utf8::is_ascii_chars(path) ==> is_ascii_line(request_content(method, path, version)),
{
    let m = vstd::utf8::encode_utf8(method);
    let p = vstd::utf8::encode_utf8(path);
    let v = vstd::utf8::encode_utf8(version);
    let x = request_content(method, path, version);
    lemma_token_bytes(method);
    lemma_version_bytes(version);
    if vstd::utf8::is_ascii_chars(path) {
        lemma_ascii_bytes(path);
    }
    assert forall|i: int| 0 <= i < x.len() implies #[trigger] x[i] != 13 && x[i] != 10 && (
    vstd::utf8::is_ascii_chars(path) ==> x[i] < 128) by {
        if i < m.len() {
            assert(x[i] == m[i]);
            lemma_token_lowered(method, i);
        } else if m.len() < i < m.len() + 1 + p.len() {
            assert(x[i] == p[i - m.len() - 1]);
            assert(head::is_target_byte(p[i - m.len() - 1]));
        } else if i > m.len() + 1 + p.len() {
            assert(x[i] == v[i - m.len() - p.len() - 2]);
        }
    }
    assert(wire::request_line(method, path, version) =~= x + wire::crlf());
}

/// The first line of a response without its end.
spec fn response_content(version: Seq<char>, status: u16, reason: Seq<char>) -> Seq<u8> {
    vstd::utf8::encode_utf8(version) + seq![32u8] + wire::status_digits(status) + seq![32u8]
        + vstd::utf8::encode_utf8(reason)
}

proof fn lemma_response_content(version: Seq<char>, status: u16, reason: Seq<char>)
    requires
        version == "HTTP/1.0"@ || version == "HTTP/1.1"@,
        status <= 999,
        head::is_reason(reason),
    ensures
        is_ascii_line(response_content(version, status, reason)),
        has_no_return(response_content(version, status, reason)),
        completeness::line_length(low(response_content(version, status, reason))) is None,
        wire::status_line(version, status, reason) == response_content(version, status, reason)
            + wire::crlf(),
{
    let v = vstd::utf8::encode_utf8(version);
    let d = wire::status_digits(status);
    let r = vstd::utf8::encode_utf8(reason);
    let x = response_content(version, status, reason);
    lemma_version_bytes(version);
    assert(vstd::utf8::is_ascii_chars(reason));
    lemma_ascii_bytes(reason);
    vstd::utf8::is_ascii_chars_encode_utf8(reason);
    assert forall|i: int| 0 <= i < x.len() implies #[trigger] x[i] != 13 && x[i] != 10 && x[i]
        < 128 by {
        if i < v.len() {
            assert(x[i] == v[i]);
        } else if v.len() < i < v.len() + 4 {
            assert(x[i] == d[i - v.len() - 1]);
        } else if i > v.len() + 4 {
            assert(x[i] == r[i - v.len() - 5]);
            assert(r[i - v.len() - 5] == reason[i - v.len() - 5] as u8);
        }
    }
    assert(x[0] == v[0]);
    assert(low(x)[0] == 'h');
    let label = "content-length:"@;
    reveal_strlit("content-length:");
    if text::starts_with(low(x), label) {
        assert(low(x).subrange(0, 15)[0] == label[0]);
    }
    assert(wire::status_line(version, status, reason) =~= x + wire::crlf());
}

/// The head of a written request without the bytes that end it.
pub open spec fn written_head(req: HttpRequestView) -> Seq<u8> {
    let head = wire::request_head(
        req.method,
        req.path,
        req.version,
        types::printed_fields(req.headers),
    );
    head.take(head.len() - 4)
}

/// The head of a written response without the bytes that end it.
pub open spec fn written_response_head(res: HttpResponseView) -> Seq<u8> {
    let head = wire::response_head(res.version, res.status, res.reason, res.headers);
    head.take(head.len() - 4)
}

/// The head of a request without the bytes that end it.
pub open spec fn head_text(h: head::RequestHeadView) -> Seq<u8> {
    head::head_bytes(h).take(head::head_bytes(h).len() - 4)
}

/// The head of a response without the bytes that end it.
pub open spec fn response_head_text(h: head::ResponseHeadView) -> Seq<u8> {
    head::response_head_bytes(h).take(head::response_head_bytes(h).len() - 4)
}

/// A request with a plain head has fully arrived exactly when what follows the
/// head is what the head says: at least the length that it declares, or the
/// empty chunk where it announces chunks, or anything where it says nothing.
pub proof fn plain_requests_end_where_they_say(h: head::RequestHeadView, rest: Seq<u8>)
    ensures
        head::is_plain_head(h, head::MAX_HEADERS as nat) ==> completeness::request_complete(
            head::head_bytes(h) + rest,
        ) == (match completeness::extent_of(completeness::lowered_head(head_text(h))) {
            completeness::Extent::Length(n) => rest.len() >= n,
            completeness::Extent::Chunks => text::contains(
                head::head_bytes(h) + rest,
                completeness::last_chunk_mark(),
            ),
            completeness::Extent::Open => true,
        }),
{
    if head::is_plain_head(h, head::MAX_HEADERS as nat) {
        let version = head::minor_version(h.version->Some_0);
        lemma_request_content(h.method->Some_0, h.path->Some_0, version);
        lemma_head_end(
            request_content(h.method->Some_0, h.path->Some_0, version),
            h.headers,
            rest,
        );
    }
}

/// A response with a plain head has fully arrived exactly when what follows the
/// head is what the head says: at least the length that it declares, or the
/// empty chunk where it announces chunks; where it says nothing, when there is
/// a body or the status allows none.
pub proof fn plain_responses_end_where_they_say(h: head::ResponseHeadView, rest: Seq<u8>)
    ensures
        head::is_plain_response_head(h, head::MAX_HEADERS as nat)
            ==> completeness::response_complete(head::response_head_bytes(h) + rest) == (
        match completeness::extent_of(completeness::lowered_head(response_head_text(h))) {
            completeness::Extent::Length(n) => rest.len() >= n,
            completeness::Extent::Chunks => text::contains(
                head::response_head_bytes(h) + rest,
                completeness::last_chunk_mark(),
            ),
            completeness::Extent::Open => completeness::has_bodiless_status(
                head::parsed_response(
                    head::response_head_bytes(h) + rest,
                    head::MAX_HEADERS as nat,
                ),
            ) || rest.len() > 0,
        }),
{
    if head::is_plain_response_head(h, head::MAX_HEADERS as nat) {
        let version = head::minor_version(h.version->Some_0);
        lemma_response_content(version, h.code->Some_0, h.reason->Some_0);
        lemma_head_end(
            response_content(version, h.code->Some_0, h.reason->Some_0),
            h.headers,
            rest,
        );
    }
}

/// The beginning of a head does not hold its end.
proof fn lemma_cut_head(first: Seq<u8>, fields: Seq<(Seq<char>, Seq<u8>)>, buf: Seq<u8>)
    requires
        first.len() > 0,
        has_no_return(first),
        forall|i: int| 0 <= i < fields.len() ==> head::is_plain_field(#[trigger] fields[i]),
        ({
            let head = first + wire::crlf() + wire::field_lines(fields) + wire::crlf();
            buf.len() < head.len() && buf.is_prefix_of(head)
        }),
    ensures
        text::find(buf, completeness::head_end_mark()) is None,
{
    let mark = completeness::head_end_mark();
    let head = first + wire::crlf() + wire::field_lines(fields) + wire::crlf();
    let more = head.skip(buf.len() as int);
    lemma_head_end(first, fields, Seq::empty());
    assert(head + Seq::<u8>::empty() =~= head);
    assert(buf + more =~= head);
    completeness::lemma_find_extends(buf, more, mark);
    text::lemma_find_from(buf, mark, 0);
}

proof fn lemma_cut_request_head(h: head::RequestHeadView, buf: Seq<u8>)
    requires
        head::is_plain_head(h, head::MAX_HEADERS as nat),
        buf.len() < head::head_bytes(h).len(),
        buf.is_prefix_of(head::head_bytes(h)),
    ensures
        text::find(buf, completeness::head_end_mark()) is None,
{
    let version = head::minor_version(h.version->Some_0);
    let content = request_content(h.method->Some_0, h.path->Some_0, version);
    lemma_request_content(h.method->Some_0, h.path->Some_0, version);
    assert(head::head_bytes(h) == content + wire::crlf() + wire::field_lines(h.headers)
        + wire::crlf());
    lemma_cut_head(content, h.headers, buf);
}

proof fn lemma_cut_response_head(h: head::ResponseHeadView, buf: Seq<u8>)
    requires
        head::is_plain_response_head(h, head::MAX_HEADERS as nat),
        buf.len() < head::response_head_bytes(h).len(),
        buf.is_prefix_of(head::response_head_bytes(h)),
    ensures
        text::find(buf, completeness::head_end_mark()) is None,
{
    let version = head::minor_version(h.version->Some_0);
    let content = response_content(version, h.code->Some_0, h.reason->Some_0);
    lemma_response_content(version, h.code->Some_0, h.reason->Some_0);
    assert(head::response_head_bytes(h) == content + wire::crlf() + wire::field_lines(h.headers)
        + wire::crlf());
    lemma_cut_head(content, h.headers, buf);
}

/// While the head of a message is unfinished, the message has not fully
/// arrived.
pub proof fn unfinished_heads_are_incomplete(buf: Seq<u8>)
    ensures
        head::is_unfinished_head(buf) ==> !completeness::request_complete(buf),
        head::is_unfinished_response_head(buf) ==> !completeness::response_complete(buf),
{
    if head::is_unfinished_head(buf) {
        let h = choose|h: head::RequestHeadView| #[trigger]
            head::is_plain_head(h, head::MAX_HEADERS as nat) && buf.len() < head::head_bytes(
                h,
            ).len() && buf.is_prefix_of(head::head_bytes(h));
        lemma_cut_request_head(h, buf);
    }
    if head::is_unfinished_response_head(buf) {
        let h = choose|h: head::ResponseHeadView| #[trigger]
            head::is_plain_response_head(h, head::MAX_HEADERS as nat) && buf.len()
                < head::response_head_bytes(h).len() && buf.is_prefix_of(
                head::response_head_bytes(h),
            );
        lemma_cut_response_head(h, buf);
    }
}

/// A written request has fully arrived exactly when what follows its head is
/// what the head says: at least the length that it declares, or the empty
/// chunk where it announces chunks, or anything where it says nothing.
pub proof fn written_requests_end_where_they_say(req: HttpRequestView)
    ensures
        request::is_plain_request(req) ==> completeness::request_complete(
            types::written_request(req),
        ) == (match completeness::extent_of(completeness::lowered_head(written_head(req))) {
            completeness::Extent::Length(n) => types::body_bytes(req.body).len() >= n,
            completeness::Extent::Chunks => text::contains(
                types::written_request(req),
                completeness::last_chunk_mark(),
            ),
            completeness::Extent::Open => true,
        }),
{
    if request::is_plain_request(req) {
        message::lemma_plain_fields(req.headers);
        lemma_request_content(req.method, req.path, req.version);
        lemma_head_end(
            request_content(req.method, req.path, req.version),
            req.headers,
            types::body_bytes(req.body),
        );
    }
}

/// A written response has fully arrived exactly when what follows its head is
/// what the head says: at least the length that it declares, or the empty
/// chunk where it announces chunks; where it says nothing, when there is a
/// body or the status allows none.
pub proof fn written_responses_end_where_they_say(res: HttpResponseView)
    ensures
        response::is_plain_response(res) ==> completeness::response_complete(
            response::written_response(res),
        ) == (match completeness::extent_of(
            completeness::lowered_head(written_response_head(res)),
        ) {
            completeness::Extent::Length(n) => types::body_bytes(res.body).len() >= n,
            completeness::Extent::Chunks => text::contains(
                response::written_response(res),
                completeness::last_chunk_mark(),
            ),
            completeness::Extent::Open => completeness::has_bodiless_status(
                head::parsed_response(response::written_response(res), head::MAX_HEADERS as nat),
            ) || types::body_bytes(res.body).len() > 0,
        }),
{
    if response::is_plain_response(res) {
        message::lemma_plain_fields(res.headers);
        lemma_response_content(res.version, res.status, res.reason);
        lemma_head_end(
            response_content(res.version, res.status, res.reason),
            res.headers,
            types::body_bytes(res.body),
        );
    }
}

// ---------------------------------------------------------------------------
// The length that a head declares
// ---------------------------------------------------------------------------

/// ASCII bytes as text in lower case.
spec fn low(x: Seq<u8>) -> Seq<char> {
    text::ascii_lowercase(headers::ascii_text(x))
}

/// Lines with an end of line between each two.
spec fn joined(xs: Seq<Seq<u8>>) -> Seq<u8>
    decreases xs.len(),
{
    if xs.len() == 0 {
        Seq::empty()
    } else if xs.len() == 1 {
        xs[0]
    } else {
        xs[0] + wire::crlf() + joined(xs.skip(1))
    }
}

/// A line that is not empty and has no end of line in it.
spec fn is_line(x: Seq<u8>) -> bool {
    x.len() > 0 && forall|i: int| 0 <= i < x.len() ==> #[trigger] x[i] != 13 && x[i] != 10
}

/// A line made of ASCII bytes.
spec fn is_ascii_line(x: Seq<u8>) -> bool {
    is_line(x) && forall|i: int| 0 <= i < x.len() ==> #[trigger] x[i] < 128
}

proof fn lemma_joined_push(xs: Seq<Seq<u8>>, y: Seq<u8>)
    requires
        xs.len() > 0,
    ensures
        joined(xs.push(y)) == joined(xs) + wire::crlf() + y,
    decreases xs.len(),
{
    let more = xs.push(y);
    if xs.len() == 1 {
        assert(more.skip(1) =~= seq![y]);
        assert(joined(more.skip(1)) == y);
    } else {
        assert(more.skip(1) =~= xs.skip(1).push(y));
        lemma_joined_push(xs.skip(1), y);
        assert(joined(more) =~= joined(xs) + wire::crlf() + y);
    }
}

proof fn lemma_low_char(b: u8)
    ensures
        (b == 10) == (text::ascii_lower_char(b as char) == '\n'),
        (b == 13) == (text::ascii_lower_char(b as char) == '\r'),
{
}

/// The lines of joined lines are those lines.
proof fn lemma_lines_of_joined(xs: Seq<Seq<u8>>)
    requires
        xs.len() > 0,
        forall|k: int| 0 <= k < xs.len() ==> is_line(#[trigger] xs[k]),
    ensures
        text::lines(low(joined(xs))) == xs.map_values(|x: Seq<u8>| low(x)),
    decreases xs.len(),
{
    let s = low(joined(xs));
    let x = xs[0];
    let lows = xs.map_values(|x: Seq<u8>| low(x));
    assert(is_line(xs[0]));
    text::lemma_until(s, '\n');
    let u = text::until(s, '\n');
    if xs.len() == 1 {
        assert(s == low(x));
        if u < s.len() {
            lemma_low_char(x[u]);
            assert(x[u] != 10);
        }
        assert(lows =~= seq![s]);
    } else {
        let rest = xs.skip(1);
        assert forall|k: int| 0 <= k < rest.len() implies is_line(#[trigger] rest[k]) by {
            assert(rest[k] == xs[k + 1]);
        }
        lemma_lines_of_joined(rest);
        let n = x.len() as int;
        let j = joined(xs);
        assert(j[n] == 13 && j[n + 1] == 10);
        lemma_low_char(j[n]);
        lemma_low_char(j[n + 1]);
        assert(s[n] == '\r' && s[n + 1] == '\n');
        if u < n {
            assert(j[u] == x[u]);
            lemma_low_char(j[u]);
            assert(x[u] != 10);
        }
        assert(u == n + 1);
        assert(text::drop_cr(s.take(u)) =~= low(x));
        assert(s.skip(u + 1) =~= low(joined(rest)));
        assert(lows =~= seq![low(x)] + rest.map_values(|x: Seq<u8>| low(x)));
    }
}

/// A header line without its end.
spec fn field_content(field: (Seq<char>, Seq<u8>)) -> Seq<u8> {
    vstd::utf8::encode_utf8(field.0) + seq![58u8, 32u8] + field.1
}

/// The lines of a head: the first, and one for each field.
spec fn head_lines(first: Seq<u8>, fields: Seq<(Seq<char>, Seq<u8>)>) -> Seq<Seq<u8>> {
    seq![first] + fields.map_values(|f: (Seq<char>, Seq<u8>)| field_content(f))
}

proof fn lemma_head_is_joined(first: Seq<u8>, fields: Seq<(Seq<char>, Seq<u8>)>)
    ensures
        first + wire::crlf() + wire::field_lines(fields) == joined(head_lines(first, fields))
            + wire::crlf(),
    decreases fields.len(),
{
    if fields.len() == 0 {
        assert(head_lines(first, fields) =~= seq![first]);
        assert(first + wire::crlf() + wire::field_lines(fields) =~= first + wire::crlf());
    } else {
        let before = fields.drop_last();
        let y = field_content(fields.last());
        lemma_head_is_joined(first, before);
        assert(head_lines(first, fields) =~= head_lines(first, before).push(y));
        lemma_joined_push(head_lines(first, before), y);
        assert(wire::field_line(fields.last()) =~= y + wire::crlf());
        assert(first + wire::crlf() + wire::field_lines(fields) =~= (first + wire::crlf()
            + wire::field_lines(before)) + (y + wire::crlf()));
        assert(joined(head_lines(first, fields)) + wire::crlf() =~= (joined(
            head_lines(first, before),
        ) + wire::crlf()) + (y + wire::crlf()));
    }
}

/// The length that the value of a `content-length` field declares, as it is
/// read from the text of the head: what stands before any colon.
pub open spec fn value_length(value: Seq<u8>) -> Option<int> {
    let rest = seq![' '] + text::ascii_lowercase(headers::ascii_text(value));
    numbers::parse_unsigned(text::trim(rest.take(text::until(rest, ':'))), usize::MAX as int)
}

/// A header line that can be read as ASCII text.
pub open spec fn is_ascii_field(field: (Seq<char>, Seq<u8>)) -> bool {
    headers::is_token(field.0) && headers::is_visible(field.1)
}

/// The length that the first header line to declare one declares. Its name may
/// be in any letter case.
pub open spec fn lines_length(lines: Seq<(Seq<char>, Seq<u8>)>) -> Option<int>
    decreases lines.len(),
{
    if lines.len() == 0 {
        None
    } else if text::ascii_lowercase(lines[0].0) == "content-length"@ && value_length(
        lines[0].1,
    ) is Some {
        value_length(lines[0].1)
    } else {
        lines_length(lines.skip(1))
    }
}

/// The length that the fields of a message declare.
pub open spec fn fields_length(fields: Seq<(Seq<char>, Seq<u8>)>) -> Option<int> {
    match headers::lookup(fields, "content-length"@) {
        Some(v) => value_length(v),
        None => None,
    }
}

proof fn lemma_token_lowered(s: Seq<char>, i: int)
    requires
        headers::is_token(s),
        0 <= i < s.len(),
    ensures
        low(vstd::utf8::encode_utf8(s)).len() == s.len(),
        low(vstd::utf8::encode_utf8(s))[i] == text::ascii_lower_char(s[i]),
        text::ascii_lower_char(s[i]) != ':',
        text::ascii_lower_char(s[i]) != ' ',
        vstd::utf8::encode_utf8(s)[i] < 128,
        vstd::utf8::encode_utf8(s)[i] != 13 && vstd::utf8::encode_utf8(s)[i] != 10,
{
    assert(vstd::utf8::is_ascii_chars(s)) by {
        assert forall|k: int| 0 <= k < s.len() implies '\0' <= #[trigger] s[k] <= '\u{7f}' by {
            assert(headers::is_token_char(s[k]));
        }
    }
    vstd::utf8::is_ascii_chars_encode_utf8(s);
    assert(headers::is_token_char(s[i]));
    assert(vstd::utf8::encode_utf8(s)[i] == s[i] as u8);
}

proof fn lemma_label()
    ensures
        "content-length:"@.len() == 15,
        "content-length:"@[14] == ':',
        forall|i: int|
            0 <= i < 14 ==> #[trigger] "content-length:"@[i] != ':' && "content-length:"@[i] != ' ',
        "content-length:"@.take(14) == "content-length"@,
        "content-length"@.len() == 14,
        headers::is_field_name("content-length"@),
{
    reveal_strlit("content-length:");
    reveal_strlit("content-length");
    assert("content-length:"@.take(14) =~= "content-length"@);
}

/// The first line of a request declares no length.
proof fn lemma_request_line_declares_nothing(method: Seq<char>, more: Seq<u8>)
    requires
        headers::is_token(method),
    ensures
        completeness::line_length(low(vstd::utf8::encode_utf8(method) + seq![32u8] + more)) is None,
{
    let m = vstd::utf8::encode_utf8(method);
    let line = m + seq![32u8] + more;
    let label = "content-length:"@;
    lemma_label();
    lemma_token_lowered(method, 0);
    lemma_token_bytes(method);
    if text::starts_with(low(line), label) {
        assert(low(line).subrange(0, 15) == label);
        if method.len() <= 14 {
            let n = method.len() as int;
            assert(line[n] == 32);
            assert(low(line)[n] == ' ');
            assert(low(line).subrange(0, 15)[n] == label[n]);
        } else {
            lemma_token_lowered(method, 14);
            assert(line[14] == m[14]);
            assert(low(line)[14] == low(m)[14]);
            assert(low(line).subrange(0, 15)[14] == label[14]);
        }
    }
}

/// A header line declares a length where it is that of the right field.
proof fn lemma_field_line_declares(field: (Seq<char>, Seq<u8>))
    requires
        is_ascii_field(field),
    ensures
        completeness::line_length(low(field_content(field))) == (if text::ascii_lowercase(field.0)
            == "content-length"@ {
            value_length(field.1)
        } else {
            None
        }),
{
    let name = text::ascii_lowercase(field.0);
    let m = vstd::utf8::encode_utf8(field.0);
    let line = field_content(field);
    let label = "content-length:"@;
    lemma_label();
    lemma_token_lowered(field.0, 0);
    lemma_token_bytes(field.0);
    let n = name.len() as int;
    assert(line[n] == 58);
    assert(low(line)[n] == ':');
    assert forall|i: int| 0 <= i < n implies #[trigger] low(line)[i] == name[i] && name[i] != ':' by {
        lemma_token_lowered(field.0, i);
        assert(line[i] == m[i]);
        assert(low(line)[i] == low(m)[i]);
    }
    if name == "content-length"@ {
        assert(low(line).subrange(0, 15) =~= label) by {
            assert forall|i: int| 0 <= i < 15 implies #[trigger] low(line)[i] == label[i] by {
                if i < 14 {
                    assert(low(line)[i] == name[i]);
                    assert(label.take(14)[i] == label[i]);
                }
            }
        }
        assert(low(line).skip(15) =~= seq![' '] + low(field.1)) by {
            assert forall|i: int| 0 <= i < low(line).len() - 15 implies #[trigger] low(line).skip(
                15,
            )[i] == (seq![' '] + low(field.1))[i] by {
                if i == 0 {
                    assert(line[15] == 32);
                } else {
                    assert(line[15 + i] == field.1[i - 1]);
                }
            }
        }
    } else if text::starts_with(low(line), label) {
        let front = low(line).subrange(0, 15);
        assert(front == label);
        if n < 14 {
            assert(front[n] == label[n]);
        } else if n > 14 {
            assert(front[14] == label[14]);
            assert(low(line)[14] == name[14]);
        } else {
            assert(name =~= "content-length"@) by {
                assert forall|i: int| 0 <= i < 14 implies #[trigger] name[i]
                    == "content-length"@[i] by {
                    assert(front[i] == label[i]);
                    assert(low(line)[i] == name[i]);
                    assert(label.take(14)[i] == label[i]);
                }
            }
        }
    }
}

proof fn lemma_lines_length(lines: Seq<(Seq<char>, Seq<u8>)>)
    requires
        forall|i: int| 0 <= i < lines.len() ==> is_ascii_field(#[trigger] lines[i]),
    ensures
        completeness::first_length(
            lines.map_values(|f: (Seq<char>, Seq<u8>)| low(field_content(f))),
        ) == lines_length(lines),
    decreases lines.len(),
{
    let lows = lines.map_values(|f: (Seq<char>, Seq<u8>)| low(field_content(f)));
    if lines.len() > 0 {
        let rest = lines.skip(1);
        assert forall|i: int| 0 <= i < rest.len() implies is_ascii_field(#[trigger] rest[i]) by {
            assert(rest[i] == lines[i + 1]);
        }
        lemma_lines_length(rest);
        lemma_field_line_declares(lines[0]);
        assert(lows[0] == low(field_content(lines[0])));
        assert(lows.skip(1) =~= rest.map_values(
            |f: (Seq<char>, Seq<u8>)| low(field_content(f)),
        ));
    }
}

proof fn lemma_no_length(fields: Seq<(Seq<char>, Seq<u8>)>)
    requires
        forall|i: int|
            0 <= i < fields.len() ==> headers::is_field_name((#[trigger] fields[i]).0)
                && fields[i].0 != "content-length"@,
    ensures
        lines_length(fields) is None,
    decreases fields.len(),
{
    if fields.len() > 0 {
        let rest = fields.skip(1);
        assert forall|i: int| 0 <= i < rest.len() implies headers::is_field_name(
            (#[trigger] rest[i]).0,
        ) && rest[i].0 != "content-length"@ by {
            assert(rest[i] == fields[i + 1]);
        }
        lemma_no_length(rest);
        assert(text::ascii_lowercase(fields[0].0) =~= fields[0].0);
    }
}

/// Where the names are stored as they are and differ, the lines declare the
/// length that the fields declare.
proof fn lemma_fields_length(fields: Seq<(Seq<char>, Seq<u8>)>)
    requires
        forall|i: int| 0 <= i < fields.len() ==> headers::is_field_name((#[trigger] fields[i]).0),
        forall|i: int, j: int|
            0 <= i < j < fields.len() ==> (#[trigger] fields[i]).0 != (#[trigger] fields[j]).0,
    ensures
        lines_length(fields) == fields_length(fields),
    decreases fields.len(),
{
    if fields.len() > 0 {
        let rest = fields.skip(1);
        assert forall|i: int| 0 <= i < rest.len() implies headers::is_field_name(
            (#[trigger] rest[i]).0,
        ) && rest[i].0 != fields[0].0 by {
            assert(rest[i] == fields[i + 1]);
        }
        assert forall|i: int, j: int| 0 <= i < j < rest.len() implies (#[trigger] rest[i]).0 != (
        #[trigger] rest[j]).0 by {
            assert(rest[i] == fields[i + 1]);
            assert(rest[j] == fields[j + 1]);
        }
        lemma_fields_length(rest);
        assert(text::ascii_lowercase(fields[0].0) =~= fields[0].0);
        if fields[0].0 == "content-length"@ {
            lemma_no_length(rest);
        }
    }
}

proof fn lemma_ascii_bytes(s: Seq<char>)
    requires
        vstd::utf8::is_ascii_chars(s),
    ensures
        forall|i: int|
            0 <= i < vstd::utf8::encode_utf8(s).len() ==> #[trigger] vstd::utf8::encode_utf8(s)[i]
                < 128,
        vstd::utf8::encode_utf8(s).len() == s.len(),
{
    vstd::utf8::is_ascii_chars_encode_utf8(s);
    let b = vstd::utf8::encode_utf8(s);
    assert forall|i: int| 0 <= i < b.len() implies #[trigger] b[i] < 128 by {
        assert(b[i] == s[i] as u8);
    }
}

proof fn lemma_joined_ascii(xs: Seq<Seq<u8>>)
    requires
        forall|k: int, i: int|
            0 <= k < xs.len() && 0 <= i < xs[k].len() ==> (#[trigger] xs[k][i]) < 128,
    ensures
        forall|i: int| 0 <= i < joined(xs).len() ==> #[trigger] joined(xs)[i] < 128,
    decreases xs.len(),
{
    if xs.len() > 1 {
        let rest = xs.skip(1);
        assert forall|k: int, i: int|
            0 <= k < rest.len() && 0 <= i < rest[k].len() implies (#[trigger] rest[k][i]) < 128 by {
            assert(rest[k] == xs[k + 1]);
            assert(xs[k + 1][i] < 128);
        }
        lemma_joined_ascii(rest);
        let n = xs[0].len() as int;
        assert forall|i: int| 0 <= i < joined(xs).len() implies #[trigger] joined(xs)[i] < 128 by {
            if i < n {
                assert(joined(xs)[i] == xs[0][i]);
            } else if i >= n + 2 {
                assert(joined(xs)[i] == joined(rest)[i - n - 2]);
            }
        }
    } else if xs.len() == 1 {
        assert forall|i: int| 0 <= i < joined(xs).len() implies #[trigger] joined(xs)[i] < 128 by {
            assert(joined(xs)[i] == xs[0][i]);
        }
    }
}

/// The text of a head declares the length that its lines declare.
proof fn lemma_head_declares(first: Seq<u8>, fields: Seq<(Seq<char>, Seq<u8>)>)
    requires
        is_ascii_line(first),
        forall|i: int| 0 <= i < fields.len() ==> is_ascii_field(#[trigger] fields[i]),
        completeness::line_length(low(first)) is None,
    ensures
        ({
            let head = first + wire::crlf() + wire::field_lines(fields) + wire::crlf();
            completeness::declared_length(completeness::lowered_head(head.take(head.len() - 4)))
                == lines_length(fields)
        }),
{
    let xs = head_lines(first, fields);
    lemma_head_is_joined(first, fields);
    let head = first + wire::crlf() + wire::field_lines(fields) + wire::crlf();
    assert(head =~= joined(xs) + wire::crlf() + wire::crlf());
    assert(head.take(head.len() - 4) =~= joined(xs));
    assert forall|k: int, i: int|
        0 <= k < xs.len() && 0 <= i < xs[k].len() implies (#[trigger] xs[k][i]) < 128 && xs[k][i]
        != 13 && xs[k][i] != 10 by {
        if k > 0 {
            assert(is_ascii_field(fields[k - 1]));
            lemma_field_content_bytes(fields[k - 1], i);
            assert(xs[k] == field_content(fields[k - 1]));
        } else {
            assert(xs[k] == first);
        }
    }
    assert forall|k: int| 0 <= k < xs.len() implies is_line(#[trigger] xs[k]) by {
        if k > 0 {
            assert(xs[k] == field_content(fields[k - 1]));
        }
        assert forall|i: int| 0 <= i < xs[k].len() implies #[trigger] xs[k][i] != 13 && xs[k][i]
            != 10 by {}
    }
    lemma_joined_ascii(xs);
    message::lemma_ascii_is_text(joined(xs));
    lemma_lines_of_joined(xs);
    let lows = xs.map_values(|x: Seq<u8>| low(x));
    let field_lows = fields.map_values(|f: (Seq<char>, Seq<u8>)| low(field_content(f)));
    assert(lows[0] == low(first));
    assert(lows.skip(1) =~= field_lows);
    lemma_lines_length(fields);
}

/// A plain request head declares the length that its lines declare, where it is
/// ASCII, whatever letter case the names are in.
pub proof fn plain_heads_declare_their_lines(h: head::RequestHeadView)
    ensures
        head::is_plain_head(h, head::MAX_HEADERS as nat) && vstd::utf8::is_ascii_chars(
            h.path->Some_0,
        ) && (forall|i: int| 0 <= i < h.headers.len() ==> is_ascii_field(#[trigger] h.headers[i]))
            ==> completeness::declared_length(completeness::lowered_head(head_text(h)))
            == lines_length(h.headers),
{
    if head::is_plain_head(h, head::MAX_HEADERS as nat) && vstd::utf8::is_ascii_chars(
        h.path->Some_0,
    ) && (forall|i: int| 0 <= i < h.headers.len() ==> is_ascii_field(#[trigger] h.headers[i])) {
        let version = head::minor_version(h.version->Some_0);
        lemma_request_head_declares(h.method->Some_0, h.path->Some_0, version, h.headers);
    }
}

/// A plain response head declares the length that its lines declare, where it
/// is ASCII, whatever letter case the names are in.
pub proof fn plain_response_heads_declare_their_lines(h: head::ResponseHeadView)
    ensures
        head::is_plain_response_head(h, head::MAX_HEADERS as nat) && (forall|i: int|
            0 <= i < h.headers.len() ==> is_ascii_field(#[trigger] h.headers[i]))
            ==> completeness::declared_length(completeness::lowered_head(response_head_text(h)))
            == lines_length(h.headers),
{
    if head::is_plain_response_head(h, head::MAX_HEADERS as nat) && (forall|i: int|
        0 <= i < h.headers.len() ==> is_ascii_field(#[trigger] h.headers[i])) {
        let version = head::minor_version(h.version->Some_0);
        lemma_response_content(version, h.code->Some_0, h.reason->Some_0);
        lemma_head_declares(
            response_content(version, h.code->Some_0, h.reason->Some_0),
            h.headers,
        );
    }
}

proof fn lemma_request_head_declares(
    method: Seq<char>,
    path: Seq<char>,
    version: Seq<char>,
    fields: Seq<(Seq<char>, Seq<u8>)>,
)
    requires
        headers::is_token(method),
        head::is_target(path),
        vstd::utf8::is_ascii_chars(path),
        version == "HTTP/1.0"@ || version == "HTTP/1.1"@,
        forall|i: int| 0 <= i < fields.len() ==> is_ascii_field(#[trigger] fields[i]),
    ensures
        ({
            let head = wire::request_head(method, path, version, fields);
            completeness::declared_length(completeness::lowered_head(head.take(head.len() - 4)))
                == lines_length(fields)
        }),
{
    lemma_request_content(method, path, version);
    let content = request_content(method, path, version);
    let rest = vstd::utf8::encode_utf8(path) + seq![32u8] + vstd::utf8::encode_utf8(version);
    lemma_request_line_declares_nothing(method, rest);
    assert(content =~= vstd::utf8::encode_utf8(method) + seq![32u8] + rest);
    lemma_head_declares(content, fields);
}

/// Plain fields are ASCII lines that declare the length that they declare as
/// fields.
proof fn lemma_plain_fields_declare(fields: Seq<(Seq<char>, Seq<u8>)>)
    requires
        message::are_plain_fields(fields),
    ensures
        forall|i: int| 0 <= i < fields.len() ==> is_ascii_field(#[trigger] fields[i]),
        lines_length(fields) == fields_length(fields),
{
    assert forall|i: int| 0 <= i < fields.len() implies is_ascii_field(#[trigger] fields[i]) by {
        assert(message::is_plain_stored_field(fields[i]));
    }
    assert forall|i: int| 0 <= i < fields.len() implies headers::is_field_name(
        (#[trigger] fields[i]).0,
    ) by {
        assert(message::is_plain_stored_field(fields[i]));
    }
    lemma_fields_length(fields);
}

/// The head of a written request declares the length that its fields declare,
/// where the path is ASCII.
pub proof fn written_heads_declare_their_fields(req: HttpRequestView)
    ensures
        request::is_plain_request(req) && vstd::utf8::is_ascii_chars(req.path) ==>
            completeness::declared_length(completeness::lowered_head(written_head(req)))
            == fields_length(req.headers),
{
    if request::is_plain_request(req) && vstd::utf8::is_ascii_chars(req.path) {
        message::lemma_plain_fields(req.headers);
        lemma_plain_fields_declare(req.headers);
        lemma_request_head_declares(req.method, req.path, req.version, req.headers);
    }
}

/// The head of a written response declares the length that its fields declare.
pub proof fn written_response_heads_declare_their_fields(res: HttpResponseView)
    ensures
        response::is_plain_response(res) ==> completeness::declared_length(
            completeness::lowered_head(written_response_head(res)),
        ) == fields_length(res.headers),
{
    if response::is_plain_response(res) {
        message::lemma_plain_fields(res.headers);
        lemma_plain_fields_declare(res.headers);
        lemma_response_content(res.version, res.status, res.reason);
        lemma_head_declares(
            response_content(res.version, res.status, res.reason),
            res.headers,
        );
    }
}

proof fn lemma_field_content_bytes(field: (Seq<char>, Seq<u8>), i: int)
    requires
        is_ascii_field(field),
        0 <= i < field_content(field).len(),
    ensures
        field_content(field)[i] < 128,
        field_content(field)[i] != 13,
        field_content(field)[i] != 10,
{
    let m = vstd::utf8::encode_utf8(field.0);
    let x = field_content(field);
    lemma_token_bytes(field.0);
    if i < m.len() {
        assert(x[i] == m[i]);
        lemma_token_lowered(field.0, i);
    } else if i >= m.len() + 2 {
        assert(x[i] == field.1[i - m.len() - 2]);
        assert(headers::is_visible_byte(field.1[i - m.len() - 2]));
    }
}

/// A written request whose fields declare a length has fully arrived exactly
/// when its body has at least that length, where the path is ASCII.
pub proof fn declared_lengths_decide(req: HttpRequestView)
    ensures
        request::is_plain_request(req) && vstd::utf8::is_ascii_chars(req.path) && fields_length(req.headers) is Some
            ==> completeness::request_complete(types::written_request(req)) == (types::body_bytes(
            req.body,
        ).len() >= fields_length(req.headers)->Some_0),
{
    written_requests_end_where_they_say(req);
    written_heads_declare_their_fields(req);
}

/// A written response whose fields declare a length has fully arrived exactly
/// when its body has at least that length.
pub proof fn declared_response_lengths_decide(res: HttpResponseView)
    ensures
        response::is_plain_response(res) && fields_length(res.headers) is Some ==>
            completeness::response_complete(response::written_response(res)) == (
        types::body_bytes(res.body).len() >= fields_length(res.headers)->Some_0),
{
    written_responses_end_where_they_say(res);
    written_response_heads_declare_their_fields(res);
}

/// A number in decimal digits, as the value of a `content-length` field,
/// declares that number.
pub proof fn decimal_values_declare(n: nat)
    requires
        n <= usize::MAX,
    ensures
        value_length(vstd::utf8::encode_utf8(numbers::decimal(n))) == Some(n as int),
{
    let d = numbers::decimal(n);
    numbers::lemma_decimal_value(n);
    numbers::lemma_parse_decimal(n, usize::MAX as int);
    assert(vstd::utf8::is_ascii_chars(d)) by {
        assert forall|i: int| 0 <= i < d.len() implies '\0' <= #[trigger] d[i] <= '\u{7f}' by {
            assert(numbers::is_digit(d[i]));
        }
    }
    lemma_ascii_bytes(d);
    let b = vstd::utf8::encode_utf8(d);
    vstd::utf8::is_ascii_chars_encode_utf8(d);
    assert(low(b) =~= d) by {
        assert forall|i: int| 0 <= i < d.len() implies #[trigger] low(b)[i] == d[i] by {
            assert(numbers::is_digit(d[i]));
            assert(b[i] == d[i] as u8);
        }
    }
    let rest = seq![' '] + d;
    text::lemma_until(rest, ':');
    let u = text::until(rest, ':');
    if u < rest.len() {
        assert(rest[u] == ':');
        if u > 0 {
            assert(numbers::is_digit(d[u - 1]));
        }
    }
    assert(rest.take(u) =~= rest);
    assert(rest.skip(1) =~= d);
    assert(numbers::is_digit(d[0]) && numbers::is_digit(d[d.len() - 1]));
    assert(text::trim_start(rest) == text::trim_start(d));
    assert(text::trim_start(d) == d);
    assert(text::trim_end(d) == d);
}

// ---------------------------------------------------------------------------
// Where messages end, by the lines of their heads
// ---------------------------------------------------------------------------

/// The first empty line of a message with a plain head is the one that ends the
/// head.
pub proof fn plain_response_heads_end_with_an_empty_line(h: head::ResponseHeadView, rest: Seq<u8>)
    requires
        head::is_plain_response_head(h, head::MAX_HEADERS as nat),
    ensures
        text::find(
            head::response_head_bytes(h) + rest,
            seq![13u8, 10u8, 13u8, 10u8],
        ) == Some(head::response_head_bytes(h).len() - 4),
{
    let version = head::minor_version(h.version->Some_0);
    lemma_response_content(version, h.code->Some_0, h.reason->Some_0);
    lemma_head_end(
        response_content(version, h.code->Some_0, h.reason->Some_0),
        h.headers,
        rest,
    );
}

/// The bytes of a plain response head are ASCII where its lines are.
pub proof fn lemma_response_head_is_ascii(h: head::ResponseHeadView)
    requires
        head::is_plain_response_head(h, head::MAX_HEADERS as nat),
        forall|i: int| 0 <= i < h.headers.len() ==> is_ascii_field(#[trigger] h.headers[i]),
    ensures
        vstd::utf8::valid_utf8(head::response_head_bytes(h)),
{
    let version = head::minor_version(h.version->Some_0);
    let first = response_content(version, h.code->Some_0, h.reason->Some_0);
    lemma_response_content(version, h.code->Some_0, h.reason->Some_0);
    lemma_ascii_head(first, h.headers);
    let head = head::response_head_bytes(h);
    assert(head == first + wire::crlf() + wire::field_lines(h.headers) + wire::crlf());
    lemma_head_is_joined(first, h.headers);
    let xs = head_lines(first, h.headers);
    assert(head =~= joined(xs) + wire::crlf() + wire::crlf());
    assert forall|i: int| 0 <= i < head.len() implies #[trigger] head[i] < 128 by {
        if i < joined(xs).len() {
            assert(head[i] == joined(xs)[i]);
        }
    }
    message::lemma_ascii_is_text(head);
}

/// The text of a head of ASCII lines is those lines, joined.
proof fn lemma_ascii_head(first: Seq<u8>, fields: Seq<(Seq<char>, Seq<u8>)>)
    requires
        is_ascii_line(first),
        forall|i: int| 0 <= i < fields.len() ==> is_ascii_field(#[trigger] fields[i]),
    ensures
        ({
            let head = first + wire::crlf() + wire::field_lines(fields) + wire::crlf();
            let text = joined(head_lines(first, fields));
            &&& head.take(head.len() - 4) == text
            &&& forall|i: int| 0 <= i < text.len() ==> #[trigger] text[i] < 128
            &&& completeness::lowered_head(text) == low(text)
        }),
{
    let xs = head_lines(first, fields);
    lemma_head_is_joined(first, fields);
    let head = first + wire::crlf() + wire::field_lines(fields) + wire::crlf();
    assert(head =~= joined(xs) + wire::crlf() + wire::crlf());
    assert(head.take(head.len() - 4) =~= joined(xs));
    assert forall|k: int, i: int| 0 <= k < xs.len() && 0 <= i < xs[k].len() implies (
    #[trigger] xs[k][i]) < 128 by {
        if k > 0 {
            assert(is_ascii_field(fields[k - 1]));
            assert(xs[k] == field_content(fields[k - 1]));
            lemma_field_content_bytes(fields[k - 1], i);
        } else {
            assert(xs[k] == first);
        }
    }
    lemma_joined_ascii(xs);
    message::lemma_ascii_is_text(joined(xs));
}

/// A line stands in joined lines.
proof fn lemma_line_stands(xs: Seq<Seq<u8>>, k: int) -> (p: int)
    requires
        0 <= k < xs.len(),
    ensures
        0 <= p,
        p + xs[k].len() <= joined(xs).len(),
        forall|i: int| 0 <= i < xs[k].len() ==> #[trigger] xs[k][i] == joined(xs)[p + i],
    decreases xs.len(),
{
    if xs.len() == 1 {
        0
    } else if k == 0 {
        0
    } else {
        let rest = xs.skip(1);
        assert(rest[k - 1] == xs[k]);
        let q = lemma_line_stands(rest, k - 1);
        let p = xs[0].len() + 2 + q;
        assert forall|i: int| 0 <= i < xs[k].len() implies #[trigger] xs[k][i] == joined(xs)[p
            + i] by {
            assert(rest[k - 1][i] == joined(rest)[q + i]);
            assert(joined(xs)[p + i] == joined(rest)[q + i]);
        }
        p
    }
}

/// The words that announce chunks.
proof fn lemma_chunked_words()
    ensures
        headers::is_small("transfer-encoding: chunked"@),
        "transfer-encoding: chunked"@ == "transfer-encoding"@ + seq![':', ' '] + "chunked"@,
        "transfer-encoding"@.len() == 17,
        "chunked"@.len() == 7,
        "content-length"@ != "transfer-encoding"@,
{
    reveal_strlit("transfer-encoding: chunked");
    reveal_strlit("transfer-encoding");
    reveal_strlit("chunked");
    reveal_strlit("content-length");
    assert("transfer-encoding: chunked"@ =~= "transfer-encoding"@ + seq![':', ' '] + "chunked"@);
    assert("content-length"@.len() == 14);
}

/// A `transfer-encoding` line whose value begins with `chunked` is written, the
/// letter case aside, as the words that announce chunks.
proof fn lemma_chunked_line(line: (Seq<char>, Seq<u8>))
    requires
        is_ascii_field(line),
        message::is_named(line, "transfer-encoding"@),
        headers::word_at(line.1, "chunked"@, 0),
    ensures
        headers::word_at(field_content(line), "transfer-encoding: chunked"@, 0),
{
    lemma_chunked_words();
    let word = "transfer-encoding: chunked"@;
    let name = "transfer-encoding"@;
    let x = field_content(line);
    let m = vstd::utf8::encode_utf8(line.0);
    lemma_token_bytes(line.0);
    assert(text::ascii_lowercase(line.0).len() == line.0.len());
    assert(m.len() == 17);
    assert forall|k: int| 0 <= k < word.len() implies headers::is_letter(
        x[0 + k],
        #[trigger] word[k],
    ) by {
        if k < 17 {
            assert(word[k] == name[k]);
            lemma_token_lowered(line.0, k);
            assert(x[k] == m[k]);
            assert(low(m)[k] == text::ascii_lower_char(m[k] as char));
            assert(text::ascii_lowercase(line.0)[k] == text::ascii_lower_char(line.0[k]));
            assert(name[k] == text::ascii_lower_char(line.0[k]));
        } else if k == 17 {
            assert(word[k] == ':');
            assert(x[k] == 58);
        } else if k == 18 {
            assert(word[k] == ' ');
            assert(x[k] == 32);
        } else {
            assert(word[k] == "chunked"@[k - 19]);
            assert(x[k] == line.1[k - 19]);
            assert(headers::is_letter(line.1[0 + (k - 19)], "chunked"@[k - 19]));
        }
    }
}

/// A head announces chunks exactly where its bytes hold the words for it, in any
/// letter case.
proof fn lemma_head_announces(first: Seq<u8>, fields: Seq<(Seq<char>, Seq<u8>)>)
    requires
        is_ascii_line(first),
        forall|i: int| 0 <= i < fields.len() ==> is_ascii_field(#[trigger] fields[i]),
    ensures
        ({
            let head = first + wire::crlf() + wire::field_lines(fields) + wire::crlf();
            let text = head.take(head.len() - 4);
            &&& completeness::announces_chunks(completeness::lowered_head(text)) <==> exists|i: int|
                #[trigger] headers::word_at(text, "transfer-encoding: chunked"@, i)
            &&& forall|k: int| #[trigger]
                is_chunked_line(fields, k) ==> completeness::announces_chunks(
                    completeness::lowered_head(text),
                )
        }),
{
    lemma_ascii_head(first, fields);
    lemma_chunked_words();
    let head = first + wire::crlf() + wire::field_lines(fields) + wire::crlf();
    let text = head.take(head.len() - 4);
    let xs = head_lines(first, fields);
    let word = "transfer-encoding: chunked"@;
    if completeness::announces_chunks(completeness::lowered_head(text)) {
        let i = choose|i: int| text::occurs_at(low(text), word, i);
        headers::lemma_lowered_word(text, word, i);
        assert(headers::word_at(text, word, i));
    }
    if exists|i: int| #[trigger] headers::word_at(text, word, i) {
        let i = choose|i: int| #[trigger] headers::word_at(text, word, i);
        headers::lemma_lowered_word(text, word, i);
        assert(text::occurs_at(low(text), word, i));
    }
    assert forall|k: int| #[trigger]
        is_chunked_line(fields, k) implies completeness::announces_chunks(
        completeness::lowered_head(text),
    ) by {
        lemma_chunked_line(fields[k]);
        let p = lemma_line_stands(xs, k + 1);
        let x = field_content(fields[k]);
        assert(xs[k + 1] == x);
        assert forall|j: int| 0 <= j < word.len() implies headers::is_letter(
            text[p + j],
            #[trigger] word[j],
        ) by {
            assert(headers::is_letter(x[0 + j], word[j]));
            assert(xs[k + 1][j] == joined(xs)[p + j]);
        }
        assert(headers::word_at(text, word, p));
    }
}

/// The line is named `transfer-encoding` and its value begins with `chunked`,
/// both in any letter case.
pub open spec fn is_chunked_line(lines: Seq<(Seq<char>, Seq<u8>)>, k: int) -> bool {
    &&& 0 <= k < lines.len()
    &&& message::is_named(lines[k], "transfer-encoding"@)
    &&& headers::word_at(lines[k].1, "chunked"@, 0)
}

/// The line is the first named `content-length`, in any letter case, and its
/// value is that number in decimal digits.
pub open spec fn is_length_line(lines: Seq<(Seq<char>, Seq<u8>)>, k: int, n: nat) -> bool {
    &&& 0 <= k < lines.len()
    &&& message::is_named(lines[k], "content-length"@)
    &&& lines[k].1 == vstd::utf8::encode_utf8(numbers::decimal(n))
    &&& forall|j: int| 0 <= j < k ==> !message::is_named(#[trigger] lines[j], "content-length"@)
}

/// Lines of which none is named `content-length` declare no length.
pub proof fn lemma_no_length_line(lines: Seq<(Seq<char>, Seq<u8>)>)
    requires
        message::has_no_line(lines, "content-length"@),
    ensures
        lines_length(lines) is None,
    decreases lines.len(),
{
    if lines.len() > 0 {
        let rest = lines.skip(1);
        assert(!message::is_named(lines[0], "content-length"@));
        assert forall|j: int| 0 <= j < rest.len() implies !message::is_named(
            #[trigger] rest[j],
            "content-length"@,
        ) by {
            assert(rest[j] == lines[j + 1]);
        }
        lemma_no_length_line(rest);
    }
}

proof fn lemma_length_line(lines: Seq<(Seq<char>, Seq<u8>)>, k: int, n: nat)
    requires
        is_length_line(lines, k, n),
        n <= usize::MAX,
    ensures
        lines_length(lines) == Some(n as int),
    decreases lines.len(),
{
    decimal_values_declare(n);
    if k > 0 {
        let rest = lines.skip(1);
        assert(!message::is_named(lines[0], "content-length"@));
        assert(rest[k - 1] == lines[k]);
        assert forall|j: int| 0 <= j < k - 1 implies !message::is_named(
            #[trigger] rest[j],
            "content-length"@,
        ) by {
            assert(rest[j] == lines[j + 1]);
        }
        lemma_length_line(rest, k - 1, n);
    }
}

/// A plain request head of ASCII lines and an ASCII target.
pub open spec fn is_ascii_head(h: head::RequestHeadView) -> bool {
    &&& head::is_plain_head(h, 64)
    &&& vstd::utf8::is_ascii_chars(h.path->Some_0)
    &&& forall|i: int| 0 <= i < h.headers.len() ==> is_ascii_field(#[trigger] h.headers[i])
}

/// A plain response head of ASCII lines.
pub open spec fn is_ascii_response_head(h: head::ResponseHeadView) -> bool {
    &&& head::is_plain_response_head(h, 64)
    &&& forall|i: int| 0 <= i < h.headers.len() ==> is_ascii_field(#[trigger] h.headers[i])
}

proof fn lemma_request_head_announces(h: head::RequestHeadView)
    requires
        is_ascii_head(h),
    ensures
        completeness::announces_chunks(completeness::lowered_head(head_text(h))) <==> exists|i: int|
            #[trigger] headers::word_at(head_text(h), "transfer-encoding: chunked"@, i),
        forall|k: int| #[trigger]
            is_chunked_line(h.headers, k) ==> completeness::announces_chunks(
                completeness::lowered_head(head_text(h)),
            ),
{
    let version = head::minor_version(h.version->Some_0);
    lemma_request_content(h.method->Some_0, h.path->Some_0, version);
    lemma_head_announces(
        request_content(h.method->Some_0, h.path->Some_0, version),
        h.headers,
    );
}

proof fn lemma_response_head_announces(h: head::ResponseHeadView)
    requires
        is_ascii_response_head(h),
    ensures
        completeness::announces_chunks(completeness::lowered_head(response_head_text(h)))
            <==> exists|i: int| #[trigger]
            headers::word_at(response_head_text(h), "transfer-encoding: chunked"@, i),
        forall|k: int| #[trigger]
            is_chunked_line(h.headers, k) ==> completeness::announces_chunks(
                completeness::lowered_head(response_head_text(h)),
            ),
{
    let version = head::minor_version(h.version->Some_0);
    lemma_response_content(version, h.code->Some_0, h.reason->Some_0);
    lemma_head_announces(
        response_content(version, h.code->Some_0, h.reason->Some_0),
        h.headers,
    );
}

/// A message whose first `content-length` line says a number has fully arrived
/// exactly when so many bytes follow the head, whatever the number is, in
/// whatever letter case the line is, and whatever the other lines are.
pub proof fn declared_messages_end_with_their_body(
    h: head::RequestHeadView,
    s: head::ResponseHeadView,
    k: int,
    n: nat,
    rest: Seq<u8>,
)
    requires
        n <= usize::MAX,
    ensures
        is_ascii_head(h) && is_length_line(h.headers, k, n) ==> completeness::request_complete(
            head::head_bytes(h) + rest,
        ) == (rest.len() >= n),
        is_ascii_response_head(s) && is_length_line(s.headers, k, n)
            ==> completeness::response_complete(head::response_head_bytes(s) + rest) == (rest.len()
            >= n),
{
    if is_ascii_head(h) && is_length_line(h.headers, k, n) {
        lemma_length_line(h.headers, k, n);
        plain_heads_declare_their_lines(h);
        plain_requests_end_where_they_say(h, rest);
    }
    if is_ascii_response_head(s) && is_length_line(s.headers, k, n) {
        lemma_length_line(s.headers, k, n);
        plain_response_heads_declare_their_lines(s);
        plain_responses_end_where_they_say(s, rest);
    }
}

/// A message that has a `transfer-encoding` line beginning with `chunked`, in
/// any letter case, and no line that declares a length has fully arrived exactly
/// when the empty chunk is in the bytes, whatever the other lines are.
pub proof fn chunked_messages_end_with_the_empty_chunk(
    h: head::RequestHeadView,
    s: head::ResponseHeadView,
    k: int,
    rest: Seq<u8>,
)
    ensures
        is_ascii_head(h) && is_chunked_line(h.headers, k) && lines_length(h.headers) is None
            ==> completeness::request_complete(head::head_bytes(h) + rest) == text::contains(
            head::head_bytes(h) + rest,
            seq![48u8, 13u8, 10u8, 13u8, 10u8],
        ),
        is_ascii_response_head(s) && is_chunked_line(s.headers, k) && lines_length(s.headers) is None
            ==> completeness::response_complete(head::response_head_bytes(s) + rest)
            == text::contains(
            head::response_head_bytes(s) + rest,
            seq![48u8, 13u8, 10u8, 13u8, 10u8],
        ),
{
    if is_ascii_head(h) && is_chunked_line(h.headers, k) && lines_length(h.headers) is None {
        plain_heads_declare_their_lines(h);
        lemma_request_head_announces(h);
        plain_requests_end_where_they_say(h, rest);
    }
    if is_ascii_response_head(s) && is_chunked_line(s.headers, k) && lines_length(
        s.headers,
    ) is None {
        plain_response_heads_declare_their_lines(s);
        lemma_response_head_announces(s);
        plain_responses_end_where_they_say(s, rest);
    }
}

/// A request whose head says nothing of where it ends has fully arrived with its
/// head. A response whose head says nothing has fully arrived once a byte of a
/// body is there, and with its head where its status never has a body: below
/// 200, 204 and 304.
pub proof fn open_messages_end_at_once(
    h: head::RequestHeadView,
    s: head::ResponseHeadView,
    rest: Seq<u8>,
)
    ensures
        is_ascii_head(h) && message::has_no_line(h.headers, "content-length"@) && (forall|i: int|
            !#[trigger] headers::word_at(head_text(h), "transfer-encoding: chunked"@, i))
            ==> completeness::request_complete(head::head_bytes(h) + rest),
        is_ascii_response_head(s) && message::has_no_line(s.headers, "content-length"@) && (
        forall|i: int|
            !#[trigger] headers::word_at(response_head_text(s), "transfer-encoding: chunked"@, i))
            && head::parsed_response(
            head::response_head_bytes(s) + rest,
            head::MAX_HEADERS as nat,
        ) == head::HeadView::Complete(s) ==> completeness::response_complete(
            head::response_head_bytes(s) + rest,
        ) == (rest.len() > 0 || s.code->Some_0 < 200 || s.code->Some_0 == 204 || s.code->Some_0
            == 304),
{
    if is_ascii_head(h) && message::has_no_line(h.headers, "content-length"@) {
        lemma_no_length_line(h.headers);
        plain_heads_declare_their_lines(h);
        lemma_request_head_announces(h);
        plain_requests_end_where_they_say(h, rest);
    }
    if is_ascii_response_head(s) && message::has_no_line(s.headers, "content-length"@) {
        lemma_no_length_line(s.headers);
        plain_response_heads_declare_their_lines(s);
        lemma_response_head_announces(s);
        plain_responses_end_where_they_say(s, rest);
    }
}

/// A plain head that is no text says nothing of where its message ends, whatever its
/// lines are: the request has arrived with it, the response with a byte of a body, or
/// with it where its status never has one.
pub proof fn heads_that_are_no_text_say_nothing(
    h: head::RequestHeadView,
    s: head::ResponseHeadView,
    rest: Seq<u8>,
)
    ensures
        head::is_plain_head(h, 64) && !vstd::utf8::valid_utf8(head_text(h))
            ==> completeness::request_complete(head::head_bytes(h) + rest),
        head::is_plain_response_head(s, 64) && !vstd::utf8::valid_utf8(response_head_text(s))
            && head::parsed_response(
            head::response_head_bytes(s) + rest,
            head::MAX_HEADERS as nat,
        ) == head::HeadView::Complete(s) ==> completeness::response_complete(
            head::response_head_bytes(s) + rest,
        ) == (rest.len() > 0 || s.code->Some_0 < 200 || s.code->Some_0 == 204 || s.code->Some_0
            == 304),
{
    reveal_strlit("transfer-encoding: chunked");
    let none = Seq::<char>::empty();
    assert(!completeness::announces_chunks(none));
    assert(completeness::declared_length(none) is None);
    if head::is_plain_head(h, 64) && !vstd::utf8::valid_utf8(head_text(h)) {
        completeness::heads_are_judged_in_lower_case(head_text(h));
        assert(completeness::lowered_head(head_text(h)) =~= none);
        plain_requests_end_where_they_say(h, rest);
    }
    if head::is_plain_response_head(s, 64) && !vstd::utf8::valid_utf8(response_head_text(s)) {
        completeness::heads_are_judged_in_lower_case(response_head_text(s));
        assert(completeness::lowered_head(response_head_text(s)) =~= none);
        plain_responses_end_where_they_say(s, rest);
    }
}

} // verus!
