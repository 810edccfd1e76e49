//! What the first bytes of a visitor are.

use crate::common::http_conn::parser::completeness;
use crate::common::http_conn::parser::head;
use crate::common::http_conn::parser::request;
use crate::common::http_conn::types;
use crate::common::http_conn::types::HttpRequestView;
use crate::common::ConnectionType;
use vstd::prelude::*;

verus! {

/// What is told of a request: whether the connection is kept alive, whether it
/// is closed after the exchange, and the path.
pub open spec fn request_summary(data: Seq<u8>) -> Option<(bool, bool, Seq<char>)> {
    match request::recognised(data) {
        Some(req) => Some(
            (
                req.connection_type != ConnectionType::Close,
                req.connection_type == ConnectionType::Close,
                req.path,
            ),
        ),
        None => None,
    }
}

/// Tells what request the bytes are, if they are a whole one.
pub fn parse_http_request(data: &[u8]) -> (r: Option<(bool, bool, String)>)
    requires
        data@.len() <= usize::MAX / 4,
    ensures
        match r {
            Some((keep_alive, close, path)) => request_summary(data@) == Some(
                (keep_alive, close, path@),
            ),
            None => request_summary(data@) is None,
        },
        forall|req: HttpRequestView| #[trigger]
            request::is_plain_request(req) && data@ == types::written_request(req)
                && completeness::request_complete(data@) ==> (r matches Some(
                (keep_alive, close, path),
            ) && close == (req.connection_type == ConnectionType::Close) && keep_alive == !close
                && path@ == req.path),
        forall|h: head::RequestHeadView| #[trigger]
            head::is_plain_head(h, head::MAX_HEADERS as nat) && head::head_bytes(h).is_prefix_of(
                data@,
            ) && completeness::request_complete(data@) ==> (r matches Some(
                (keep_alive, close, path),
            ) && close == (request::request_of(h, data@).connection_type == ConnectionType::Close)
                && keep_alive == !close && Some(path@) == h.path),
        head::is_unfinished_head(data@) ==> r is None,
{
    match request::recognise(data) {
        Some(request) => {
            let path = request.path;
            match request.connection_type {
                ConnectionType::KeepAlive => Some((true, false, path)),
                ConnectionType::Close => Some((false, true, path)),
                ConnectionType::WebSocketUpgrade => Some((true, false, path)),
            }
        },
        None => None,
    }
}

/// What is told of a whole request is its path, and that the connection is closed
/// exactly where its type says so, else kept alive. Nothing is told of anything
/// else.
pub proof fn requests_are_told_of(data: Seq<u8>)
    ensures
        request::recognised(data) is None ==> request_summary(data) is None,
        request::recognised(data) matches Some(req) ==> (request_summary(data) matches Some(s)
            && s.2 == req.path && s.0 == !s.1 && s.1 == (req.connection_type
            == ConnectionType::Close)),
{
}

} // verus!
