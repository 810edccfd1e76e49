use http::{HeaderMap, HeaderName, HeaderValue};
use reverse_tunnel::common::http_conn::parser::completeness;
use reverse_tunnel::common::http_conn::parser::head::{HeadStatus, RequestHead, ResponseHead};
use reverse_tunnel::common::http_conn::parser::request::{recognise, request_from_head};
use reverse_tunnel::common::http_conn::parser::response::response_from_head;
use reverse_tunnel::common::http_conn::parser::ParseErrorKind;
use reverse_tunnel::common::http_conn::headers::RawHeader;
use reverse_tunnel::common::http_conn::types::HttpVersion;
use reverse_tunnel::http_server::{health_check_response, inspect_request};
use reverse_tunnel::{
    determine_connection_type, is_websocket_upgrade_request, is_websocket_upgrade_response,
    serialize_http_request_to_bytes, serialize_request_to_bytes, ConnectionType, HttpRequest,
    HttpRequestParser, HttpResponse, HttpResponseParser, ProxyConnectionState,
};

fn headers(fields: &[(&str, &str)]) -> HeaderMap {
    let mut map = HeaderMap::new();
    for (name, value) in fields {
        map.append(
            HeaderName::from_bytes(name.as_bytes()).unwrap(),
            HeaderValue::from_str(value).unwrap(),
        );
    }
    map
}

fn request_parser(data: &[u8]) -> HttpRequestParser {
    let mut parser = HttpRequestParser::new();
    parser.extend(data);
    parser
}

fn response_parser(data: &[u8]) -> HttpResponseParser {
    let mut parser = HttpResponseParser::new();
    parser.extend(data);
    parser
}

#[test]
fn test_http_request_parser() {
    let request =
        b"GET /index.html HTTP/1.1\r\nHost: example.com\r\nConnection: keep-alive\r\n\r\n";
    let mut parser = HttpRequestParser::new();
    parser.extend(request);

    assert!(parser.is_complete());
    let parsed = parser.parse().unwrap();
    assert_eq!(parsed.method, "GET");
    assert_eq!(parsed.path, "/index.html");
    assert_eq!(parsed.version, "HTTP/1.1");
    assert_eq!(parsed.connection_type, ConnectionType::KeepAlive);
}

#[test]
fn test_http_response_parser() {
    let response = b"HTTP/1.1 200 OK\r\nContent-Length: 13\r\nContent-Type: text/plain\r\n\r\nHello, World!";
    let mut parser = HttpResponseParser::new();
    parser.extend(response);

    assert!(parser.is_complete());
    let parsed = parser.parse().unwrap();
    assert_eq!(parsed.status, 200);
    assert_eq!(parsed.reason, "OK");
    assert_eq!(parsed.version, "HTTP/1.1");
    assert!(parsed.body.is_some());
    assert_eq!(parsed.connection_type, ConnectionType::KeepAlive);
}

#[test]
fn test_websocket_upgrade() {
    let request = b"GET /chat HTTP/1.1\r\nHost: example.com\r\nUpgrade: websocket\r\nConnection: Upgrade\r\nSec-WebSocket-Key: dGhlIHNhbXBsZSBub25jZQ==\r\n\r\n";
    let mut parser = HttpRequestParser::new();
    parser.extend(request);

    assert!(parser.is_complete());
    assert!(parser.is_websocket_upgrade());

    let parsed = parser.parse().unwrap();
    assert_eq!(parsed.connection_type, ConnectionType::WebSocketUpgrade);
}

#[test]
fn request_is_collected_in_pieces() {
    let mut parser = HttpRequestParser::new();
    assert!(!parser.is_complete());
    parser.extend(b"POST /a HTTP/1.1\r\nContent-Le");
    assert!(!parser.is_complete());
    parser.extend(b"ngth: 5\r\n\r\nab");
    assert!(!parser.is_complete());
    parser.extend(b"cde");
    assert!(parser.is_complete());
    assert_eq!(parser.get_buffer(), b"POST /a HTTP/1.1\r\nContent-Length: 5\r\n\r\nabcde");
    let parsed = parser.parse().unwrap();
    assert_eq!(parsed.body, Some(b"abcde".to_vec()));
    parser.extend(b"and more");
    assert!(parser.is_complete());
    parser.clear();
    assert_eq!(parser.get_buffer(), b"");
    assert!(!parser.is_complete());
}

#[test]
fn request_completeness_follows_the_head() {
    assert!(request_parser(b"GET / HTTP/1.1\r\n\r\n").is_complete());
    assert!(!request_parser(b"GET / HTTP/1.1\r\n").is_complete());
    assert!(request_parser(b"POST / HTTP/1.1\r\nCONTENT-LENGTH:  3 \r\n\r\nabc").is_complete());
    assert!(!request_parser(b"POST / HTTP/1.1\r\ncontent-length: 4\r\n\r\nabc").is_complete());
    // A length that cannot be read does not count.
    assert!(request_parser(b"POST / HTTP/1.1\r\ncontent-length: many\r\n\r\n").is_complete());
    // The first line that declares a length decides.
    assert!(!request_parser(
        b"POST / HTTP/1.1\r\ncontent-length: x\r\ncontent-length: 9\r\ncontent-length: 0\r\n\r\n"
    )
    .is_complete());
    // Only what stands before the next colon is read.
    assert!(!request_parser(b"POST / HTTP/1.1\r\ncontent-length: 9:0\r\n\r\n").is_complete());
    // A length that no buffer can hold is never reached.
    assert!(!request_parser(
        b"POST / HTTP/1.1\r\ncontent-length: 18446744073709551615\r\n\r\nabc"
    )
    .is_complete());
    assert!(!request_parser(
        b"POST / HTTP/1.1\r\nTransfer-Encoding: chunked\r\n\r\n3\r\nabc\r\n"
    )
    .is_complete());
    assert!(request_parser(
        b"POST / HTTP/1.1\r\nTransfer-Encoding: chunked\r\n\r\n3\r\nabc\r\n0\r\n\r\n"
    )
    .is_complete());
    // A head that is no text declares nothing.
    assert!(request_parser(b"POST /\xff HTTP/1.1\r\ncontent-length: 4\r\n\r\n").is_complete());
}

#[test]
fn response_completeness_follows_head_and_status() {
    assert!(!response_parser(b"HTTP/1.1 200 OK\r\n\r\n").is_complete());
    assert!(response_parser(b"HTTP/1.1 200 OK\r\n\r\nx").is_complete());
    assert!(response_parser(b"HTTP/1.1 204 No Content\r\n\r\n").is_complete());
    assert!(response_parser(b"HTTP/1.1 304 Not Modified\r\n\r\n").is_complete());
    assert!(response_parser(b"HTTP/1.1 101 Switching Protocols\r\n\r\n").is_complete());
    assert!(!response_parser(b"HTTP/1.1 200 OK\r\nContent-Length: 2\r\n\r\nx").is_complete());
    assert!(response_parser(b"HTTP/1.1 200 OK\r\nContent-Length: 0\r\n\r\n").is_complete());
    assert!(!response_parser(b"HTTP/1.1 200 OK\r\nTransfer-Encoding: chunked\r\n\r\n1\r\nx\r\n")
        .is_complete());
    assert!(response_parser(
        b"HTTP/1.1 200 OK\r\nTransfer-Encoding: chunked\r\n\r\n1\r\nx\r\n0\r\n\r\n"
    )
    .is_complete());
    assert!(!response_parser(b"HTTP/1.1 204 No Content\r\n").is_complete());
}

#[test]
fn complete_messages_stay_complete() {
    for whole in vec![
        &b"HTTP/1.1 204 No Content\r\n\r\n"[..],
        &b"HTTP/1.1 200 OK\r\nContent-Length: 1\r\n\r\na"[..],
        &b"HTTP/1.1 200 OK\r\nTransfer-Encoding: chunked\r\n\r\n0\r\n\r\n"[..],
        &b"HTTP/1.1 200 OK\r\n\r\na"[..],
    ] {
        let mut parser = response_parser(whole);
        assert!(parser.is_complete());
        parser.extend(b"more\r\n\r\nand more");
        assert!(parser.is_complete());
    }
}

#[test]
fn declared_lengths_decide() {
    for n in vec![0usize, 1, 9, 10, 123] {
        for given in vec![n.saturating_sub(1), n, n + 1] {
            let body = vec![b'x'; given];
            let req = HttpRequest::from_parts(
                "POST".to_string(),
                "/p".to_string(),
                HttpVersion::Http11,
                headers(&[("host", "a"), ("content-length", &n.to_string())]),
                Some(body.clone()),
            );
            assert_eq!(inspect_request(&req).unwrap().is_complete, given >= n);
            let mut response =
                format!("HTTP/1.1 200 OK\r\nx-a: b\r\ncontent-length: {}\r\n\r\n", n).into_bytes();
            response.extend_from_slice(&body);
            assert_eq!(response_parser(&response).is_complete(), given >= n);
        }
    }
}

#[test]
fn written_responses_are_read_back() {
    let parsed = response_parser(b"HTTP/1.0 404 Not  Found\r\nx-a: b c\r\nx-b: \r\n\r\nbody")
        .parse()
        .unwrap();
    assert_eq!(parsed.status, 404);
    assert_eq!(parsed.reason, "Not  Found");
    assert_eq!(parsed.version, "HTTP/1.0");
    assert_eq!(parsed.headers, headers(&[("x-a", "b c"), ("x-b", "")]));
    assert_eq!(parsed.body, Some(b"body".to_vec()));
    assert_eq!(parsed.connection_type, ConnectionType::Close);
    let empty = response_parser(b"HTTP/1.1 007 \r\n\r\n").parse().unwrap();
    assert_eq!(empty.status, 7);
    assert_eq!(empty.reason, "");
}

#[test]
fn completeness_takes_the_lowered_head() {
    assert!(completeness::request_has_arrived(b"xxxx....ab", 4, "content-length: 2"));
    assert!(!completeness::request_has_arrived(b"xxxx....ab", 4, "content-length: 3"));
    assert!(!completeness::request_has_arrived(b"xxxx....ab", 4, "transfer-encoding: chunked"));
    assert!(completeness::request_has_arrived(b"xxxx....", 4, ""));
    assert_eq!(completeness::lower_head("GÉT / X".as_bytes()), "gét / x");
    assert_eq!(completeness::lower_head(b"\xff\xfe"), "");
    assert_eq!(completeness::find_declared_length("a\r\ncontent-length: +12\r\nb"), Some(12));
    assert_eq!(completeness::find_declared_length("x-content-length: 3"), None);
    let head = HeadStatus::Complete(ResponseHead {
        len: 8,
        version: Some(1),
        code: Some(204),
        reason: None,
        headers: vec![],
    });
    assert!(completeness::response_has_arrived(b"xxxx....", 4, "", &head));
    assert!(!completeness::response_has_arrived(b"xxxx....", 4, "", &HeadStatus::Partial));
    assert!(completeness::response_has_arrived(b"xxxx....a", 4, "", &HeadStatus::Partial));
}

#[test]
fn request_errors_tell_what_is_wrong() {
    let partial = request_parser(b"GET / HTTP/1.1\r\nHost: a").parse().unwrap_err();
    assert_eq!(partial.kind, ParseErrorKind::WouldBlock);
    assert_eq!(partial.message, "불완전한 HTTP 요청");
    let invalid = request_parser(b"GET / HTTP/3.1\r\n\r\n").parse().unwrap_err();
    assert_eq!(invalid.kind, ParseErrorKind::InvalidData);
    assert_eq!(invalid.message, "invalid HTTP version");
    let mut many = b"GET / HTTP/1.1\r\n".to_vec();
    for i in 0..65 {
        many.extend_from_slice(format!("x-{}: 1\r\n", i).as_bytes());
    }
    many.extend_from_slice(b"\r\n");
    assert_eq!(request_parser(&many).parse().unwrap_err().message, "too many headers");
}

#[test]
fn response_errors_tell_what_is_wrong() {
    let partial = response_parser(b"HTTP/1.1 200").parse().unwrap_err();
    assert_eq!(partial.kind, ParseErrorKind::WouldBlock);
    assert_eq!(partial.message, "불완전한 HTTP 응답");
    let invalid = response_parser(b"HTTP/1.1 2x0 OK\r\n\r\n").parse().unwrap_err();
    assert_eq!(invalid.kind, ParseErrorKind::InvalidData);
    assert_eq!(invalid.message, "invalid response status");
}

#[test]
fn heads_become_messages() {
    let head = RequestHead {
        len: 2,
        method: None,
        path: None,
        version: Some(0),
        headers: vec![
            RawHeader { name: "X-A".to_string(), value: b"1".to_vec() },
            RawHeader { name: "x-a".to_string(), value: b"2".to_vec() },
            RawHeader { name: "bad name".to_string(), value: b"3".to_vec() },
            RawHeader { name: "x-b".to_string(), value: b"\xff".to_vec() },
            RawHeader { name: "x-c".to_string(), value: b"a\x00b".to_vec() },
        ],
    };
    let req = request_from_head(HeadStatus::Complete(head), b"hhbody").unwrap();
    assert_eq!(req.method, "GET");
    assert_eq!(req.path, "/");
    assert_eq!(req.version, "HTTP/1.0");
    assert_eq!(req.connection_type, ConnectionType::Close);
    assert_eq!(req.body, Some(b"body".to_vec()));
    assert_eq!(req.headers.len(), 1);
    assert_eq!(req.headers.get("x-a").unwrap(), "2");

    let head = ResponseHead { len: 2, version: None, code: None, reason: None, headers: vec![] };
    let res = response_from_head(HeadStatus::Complete(head), b"hh").unwrap();
    assert_eq!(res.status, 200);
    assert_eq!(res.reason, "OK");
    assert_eq!(res.version, "HTTP/1.1");
    assert_eq!(res.body, None);
}

#[test]
fn header_names_are_lowered() {
    let parsed = request_parser(b"GET / HTTP/1.1\r\nX-Token: Value\r\n\r\n").parse().unwrap();
    let names: Vec<&str> = parsed.headers.keys().map(|n| n.as_str()).collect();
    assert_eq!(names, vec!["x-token"]);
    assert_eq!(parsed.headers.get("x-token").unwrap(), "Value");
}

#[test]
fn connection_type_follows_fields_and_version() {
    let none = headers(&[]);
    assert_eq!(determine_connection_type(&none, "HTTP/1.1"), ConnectionType::KeepAlive);
    assert_eq!(determine_connection_type(&none, "HTTP/1.0"), ConnectionType::Close);
    let close = headers(&[("connection", "Close")]);
    assert_eq!(determine_connection_type(&close, "HTTP/1.1"), ConnectionType::Close);
    let alive = headers(&[("connection", "Keep-Alive")]);
    assert_eq!(determine_connection_type(&alive, "HTTP/1.0"), ConnectionType::KeepAlive);
    let both = headers(&[("connection", "keep-alive, close")]);
    assert_eq!(determine_connection_type(&both, "HTTP/1.1"), ConnectionType::Close);
    let upgrade = headers(&[
        ("upgrade", "WebSocket"),
        ("connection", "keep-alive, Upgrade, close"),
        ("sec-websocket-key", "k"),
    ]);
    assert_eq!(determine_connection_type(&upgrade, "HTTP/1.0"), ConnectionType::WebSocketUpgrade);
    let accept = headers(&[
        ("upgrade", "websocket"),
        ("connection", "upgrade"),
        ("sec-websocket-accept", "k"),
    ]);
    assert_eq!(determine_connection_type(&accept, "HTTP/1.1"), ConnectionType::WebSocketUpgrade);
    let no_key = headers(&[("upgrade", "websocket"), ("connection", "upgrade")]);
    assert_eq!(determine_connection_type(&no_key, "HTTP/1.1"), ConnectionType::KeepAlive);
    // A value that is no visible text says nothing.
    let mut hidden = HeaderMap::new();
    hidden.insert("connection", HeaderValue::from_bytes(b"close\xff").unwrap());
    assert_eq!(determine_connection_type(&hidden, "HTTP/1.1"), ConnectionType::KeepAlive);
}

#[test]
fn upgrades_need_all_fields() {
    let request = headers(&[
        ("upgrade", "websocket"),
        ("connection", "Upgrade"),
        ("sec-websocket-key", "k"),
    ]);
    assert!(is_websocket_upgrade_request(&request));
    assert!(!is_websocket_upgrade_response(101, &request));
    let response = headers(&[
        ("upgrade", "websocket"),
        ("connection", "Upgrade"),
        ("sec-websocket-accept", "k"),
    ]);
    assert!(!is_websocket_upgrade_request(&response));
    assert!(is_websocket_upgrade_response(101, &response));
    assert!(!is_websocket_upgrade_response(200, &response));
    let req = HttpRequest::from_parts(
        "GET".to_string(),
        "/".to_string(),
        HttpVersion::Http11,
        request,
        None,
    );
    assert!(req.is_websocket_upgrade());
    let res = HttpResponse {
        status: 101,
        reason: "x".to_string(),
        version: "HTTP/1.1".to_string(),
        headers: response,
        body: None,
        connection_type: ConnectionType::WebSocketUpgrade,
    };
    assert!(res.is_websocket_upgrade());
}

#[test]
fn granted_upgrade_is_recognised() {
    let granted = b"HTTP/1.1 101 Switching Protocols\r\nUpgrade: websocket\r\nConnection: Upgrade\r\nSec-WebSocket-Accept: x\r\n\r\n";
    assert!(response_parser(granted).is_websocket_upgrade());
    assert!(!response_parser(b"HTTP/1.1 101 Switching Protocols\r\n\r\n").is_websocket_upgrade());
    assert!(!response_parser(b"nonsense").is_websocket_upgrade());
    assert!(!request_parser(b"nonsense").is_websocket_upgrade());
}

#[test]
fn requests_made_without_their_body_differ_in_it_alone() {
    for body in vec![None, Some(vec![]), Some(b"hi".to_vec())] {
        let make = |body: Option<Vec<u8>>| {
            HttpRequest::from_parts(
                "POST".to_string(),
                "/p".to_string(),
                HttpVersion::Http10,
                headers(&[("host", "a"), ("connection", "keep-alive")]),
                body,
            )
        };
        let with = make(body);
        let without = make(None);
        assert_eq!(without.body, None);
        assert_eq!(without.method, with.method);
        assert_eq!(without.path, with.path);
        assert_eq!(without.version, with.version);
        assert_eq!(without.headers, with.headers);
        assert_eq!(without.connection_type, with.connection_type);
    }
}

#[test]
fn parts_become_requests() {
    let map = headers(&[("host", "a")]);
    let req = HttpRequest::from_parts(
        "POST".to_string(),
        "/p".to_string(),
        HttpVersion::Http2,
        map,
        Some(b"hi".to_vec()),
    );
    assert_eq!(req.version, "HTTP/2.0");
    assert_eq!(req.body, Some(b"hi".to_vec()));
    let empty = HttpRequest::from_parts(
        "POST".to_string(),
        "/p".to_string(),
        HttpVersion::Http10,
        HeaderMap::new(),
        Some(vec![]),
    );
    assert_eq!(empty.body, None);
    assert_eq!(empty.connection_type, ConnectionType::Close);
    assert_eq!(HttpVersion::Http3.as_text(), "HTTP/3.0");
    assert_eq!(HttpVersion::Other.as_text(), "HTTP/1.1");
}

#[test]
fn requests_are_written() {
    let req = HttpRequest::from_parts(
        "POST".to_string(),
        "/p".to_string(),
        HttpVersion::Http11,
        headers(&[("host", "a"), ("x-b", "c")]),
        Some(b"body".to_vec()),
    );
    assert_eq!(
        serialize_http_request_to_bytes(&req).unwrap(),
        b"POST /p HTTP/1.1\r\nhost: a\r\nx-b: c\r\n\r\nbody".to_vec()
    );
    // A value that is no visible text is left out.
    let mut hidden = HeaderMap::new();
    hidden.insert("x-h", HeaderValue::from_bytes(b"\xe9").unwrap());
    assert_eq!(
        serialize_request_to_bytes("GET", "/q", Some("a=1"), HttpVersion::Http10, &hidden, None)
            .unwrap(),
        b"GET /q?a=1 HTTP/1.0\r\nx-h: \r\n\r\n".to_vec()
    );
    assert_eq!(
        serialize_request_to_bytes(
            "GET",
            "/q",
            None,
            HttpVersion::Http11,
            &HeaderMap::new(),
            Some(b"z".to_vec())
        )
        .unwrap(),
        b"GET /q HTTP/1.1\r\n\r\nz".to_vec()
    );
}

#[test]
fn written_requests_are_read_back() {
    let req = HttpRequest::from_parts(
        "PUT".to_string(),
        "/päth?x=1".to_string(),
        HttpVersion::Http11,
        headers(&[("host", "a.example"), ("content-length", "3"), ("x-empty", ""), ("te", "a b")]),
        Some(b"abc".to_vec()),
    );
    let report = inspect_request(&req).unwrap();
    assert_eq!(report.request.method, "PUT");
    assert_eq!(report.request.path, "/päth?x=1");
    assert_eq!(report.request.version, "HTTP/1.1");
    assert_eq!(report.request.headers, req.headers);
    assert_eq!(report.request.body, req.body);
    assert_eq!(report.request.connection_type, req.connection_type);
    assert!(report.is_complete);
    assert!(!report.is_websocket_upgrade);

    let short = HttpRequest::from_parts(
        "PUT".to_string(),
        "/".to_string(),
        HttpVersion::Http10,
        headers(&[("content-length", "4")]),
        Some(b"abc".to_vec()),
    );
    assert!(!inspect_request(&short).unwrap().is_complete);

    let bad = HttpRequest::from_parts(
        "".to_string(),
        "/".to_string(),
        HttpVersion::Http11,
        HeaderMap::new(),
        None,
    );
    assert_eq!(inspect_request(&bad).unwrap_err().message, "invalid token");
    assert_eq!(health_check_response().status, "ok");
    assert_eq!(health_check_response().message, "Server is healthy");
}

#[test]
fn repeated_fields_keep_the_last_value() {
    let req = HttpRequest::from_parts(
        "GET".to_string(),
        "/".to_string(),
        HttpVersion::Http11,
        headers(&[("x-a", "1"), ("x-a", "2"), ("x-b", "3")]),
        None,
    );
    let report = inspect_request(&req).unwrap();
    assert_eq!(report.request.headers.len(), 2);
    assert_eq!(report.request.headers.get("x-a").unwrap(), "2");
}

#[test]
fn only_whole_requests_are_recognised() {
    assert_eq!(recognise(b"GET /a HTTP/1.1\r\n\r\n").unwrap().path, "/a");
    assert!(recognise(b"GET /a HTTP/1.1\r\n").is_none());
    assert!(recognise(b"\r\n\r\n").is_none());
    assert!(recognise(b"hello\r\n\r\n").is_none());
}

#[test]
fn proxy_states_differ() {
    assert_eq!(ProxyConnectionState::Initial, ProxyConnectionState::Initial);
    assert_ne!(ProxyConnectionState::Closing, ProxyConnectionState::Closed);
}

fn full_head(first_line: &str) -> Vec<u8> {
    let mut head = first_line.as_bytes().to_vec();
    for i in 0..64 {
        head.extend_from_slice(format!("X-Field-{}: v {}\r\n", i, i).as_bytes());
    }
    head.extend_from_slice(b"\r\n");
    head
}

#[test]
fn unfinished_request_heads_would_block() {
    let heads = vec![
        b"GET / HTTP/1.1\r\nHost: x\r\n\r\n".to_vec(),
        b"POST /a HTTP/1.0\r\nEmpty: \r\nContent-Length: 3\r\n\r\n".to_vec(),
        "M-SEARCH /\u{e9}\u{1f600}?q HTTP/1.1\r\nX-Text: \u{e9}t\u{e9}\r\n\r\n".as_bytes().to_vec(),
        full_head("OPTIONS * HTTP/1.1\r\n"),
    ];
    for head in heads {
        for n in 0..head.len() {
            let parser = request_parser(&head[..n]);
            let err = parser.parse().unwrap_err();
            assert_eq!(err.kind, ParseErrorKind::WouldBlock, "{}", n);
            assert_eq!(err.message, "불완전한 HTTP 요청");
            assert!(!parser.is_complete());
            assert!(!parser.is_websocket_upgrade());
            assert!(recognise(&head[..n]).is_none());
        }
        assert!(request_parser(&head).parse().is_ok());
    }
}

#[test]
fn unfinished_response_heads_would_block() {
    let heads = vec![
        b"HTTP/1.1 200 OK\r\nServer: x\r\n\r\n".to_vec(),
        b"HTTP/1.0 404 \r\nEmpty: \r\nContent-Length: 3\r\n\r\n".to_vec(),
        full_head("HTTP/1.1 101 Switching Protocols\r\n"),
    ];
    for head in heads {
        for n in 0..head.len() {
            let parser = response_parser(&head[..n]);
            let err = parser.parse().unwrap_err();
            assert_eq!(err.kind, ParseErrorKind::WouldBlock, "{}", n);
            assert_eq!(err.message, "불완전한 HTTP 응답");
            assert!(!parser.is_complete());
            assert!(!parser.is_websocket_upgrade());
        }
        assert!(response_parser(&head).parse().is_ok());
    }
}

#[test]
fn heads_with_capitals_are_read() {
    let parser = request_parser(b"POST /p HTTP/1.1\r\nHost: x\r\nCONTENT-Length: 2\r\nhost: y\r\n\r\nab");
    assert!(parser.is_complete());
    let req = parser.parse().unwrap();
    assert_eq!(req.headers, headers(&[("host", "y"), ("content-length", "2")]));
    assert_eq!(req.body, Some(b"ab".to_vec()));
    assert_eq!(req.connection_type, ConnectionType::KeepAlive);
    assert!(!request_parser(b"POST /p HTTP/1.1\r\nCONTENT-Length: 2\r\n\r\na").is_complete());
    let parser = response_parser(b"HTTP/1.1 200 OK\r\nConnection: Close\r\nContent-LENGTH: 1\r\n\r\na");
    assert!(parser.is_complete());
    let res = parser.parse().unwrap();
    assert_eq!(res.headers, headers(&[("connection", "Close"), ("content-length", "1")]));
    assert_eq!(res.connection_type, ConnectionType::Close);
}
