//! The health check that tells how a request reads once it was written.

use crate::common::http_conn::parser::completeness;
use crate::common::http_conn::parser::head;
use crate::common::http_conn::parser::message;
use crate::common::http_conn::parser::message::ParseError;
use crate::common::http_conn::parser::request;
use crate::common::http_conn::types;
use crate::common::http_conn::types::HttpRequest;
use crate::common::http_conn::upgrade;
use crate::common::HttpRequestParser;
use vstd::prelude::*;

verus! {

/// What a health check is answered.
#[derive(Debug)]
pub struct HealthCheckResponse {
    pub status: String,
    pub message: String,
}

/// The answer of a server that is well.
pub open spec fn is_healthy(answer: HealthCheckResponse) -> bool {
    answer.status@ == "ok"@ && answer.message@ == "Server is healthy"@
}

/// The report on a request that was written as these bytes, with this head.
pub open spec fn is_report(
    report: RequestReport,
    h: head::RequestHeadView,
    written: Seq<u8>,
) -> bool {
    &&& report.request@ == request::request_of(h, written)
    &&& report.is_complete == completeness::request_complete(written)
    &&& report.is_websocket_upgrade == request::upgrade_requested(written)
}

/// What a health check is answered.
pub fn health_check_response() -> (r: HealthCheckResponse)
    ensures
        r.status@ == "ok"@,
        r.message@ == "Server is healthy"@,
        is_healthy(r),
{
    HealthCheckResponse { status: "ok".to_owned(), message: "Server is healthy".to_owned() }
}

/// What is found out about a request by writing and reading it.
#[derive(Debug)]
pub struct RequestReport {
    /// The request as it was read.
    pub request: HttpRequest,
    pub is_complete: bool,
    pub is_websocket_upgrade: bool,
}

/// Writes a request and reads what was written. A request that reads back as it
/// is written does so here.
pub fn inspect_request(req: &HttpRequest) -> (r: Result<RequestReport, ParseError>)
    requires
        types::written_request(req@).len() <= usize::MAX / 4,
    ensures
        ({
            let written = types::written_request(req@);
            match head::parsed_request(written, head::MAX_HEADERS as nat) {
                head::HeadView::Complete(h) => r matches Ok(report) && report.request@
                    == request::request_of(h, written) && report.is_complete
                    == completeness::request_complete(written) && report.is_websocket_upgrade
                    == request::upgrade_requested(written),
                parsed => r matches Err(e) && request::request_outcome(
                    parsed,
                    written,
                    Err::<HttpRequest, ParseError>(e),
                ),
            }
        }),
        head::parsed_request(
            types::written_request(req@),
            head::MAX_HEADERS as nat,
        ) matches head::HeadView::Complete(h) ==> (r matches Ok(report) && is_report(
            report,
            h,
            types::written_request(req@),
        )),
        request::is_plain_request(req@) ==> (r matches Ok(report) && report.request@ == req@
            && report.is_websocket_upgrade == upgrade::asks_for_websocket(req@.headers)),
{
    let mut parser = HttpRequestParser::new();
    let written = match types::serialize_http_request_to_bytes(req) {
        Ok(bytes) => bytes,
        Err(_) => Vec::new(),
    };
    parser.extend(written.as_slice());
    assert(parser@ =~= types::written_request(req@));
    match parser.parse() {
        Ok(request) => {
            let is_complete = parser.is_complete();
            let is_websocket_upgrade = parser.is_websocket_upgrade();
            Ok(RequestReport { request, is_complete, is_websocket_upgrade })
        },
        Err(e) => Err(e),
    }
}

/// A server that is well says so.
pub proof fn healthy_servers_say_so(answer: HealthCheckResponse)
    requires
        is_healthy(answer),
    ensures
        answer.status@ == seq!['o', 'k'],
        answer.message@ == "Server is healthy"@,
{
    reveal_strlit("ok");
}

/// A report tells whether the request has fully arrived and whether it asks for a
/// WebSocket, by what was written of it.
pub proof fn reports_tell_what_was_written(
    report: RequestReport,
    h: head::RequestHeadView,
    written: Seq<u8>,
)
    ensures
        is_report(report, h, written) ==> {
            &&& report.is_complete == completeness::request_complete(written)
            &&& head::parsed_request(written, head::MAX_HEADERS as nat) == head::HeadView::Complete(
                h,
            ) ==> report.is_websocket_upgrade == upgrade::asks_for_websocket(
                report.request@.headers,
            )
            &&& report.request@.headers == message::stored_fields(h.headers)
        },
{
}

} // verus!
