//! Whether a visitor asks for a WebSocket.

use crate::common::http_conn::parser::head;
use crate::common::http_conn::parser::message;
use crate::common::http_conn::parser::request;
use crate::common::http_conn::types;
use crate::common::http_conn::types::HttpRequestView;
use crate::common::http_conn::upgrade;
use crate::common::HttpRequestParser;
use vstd::prelude::*;

verus! {

/// Whether the bytes begin with a request for a WebSocket.
pub fn is_websocket_upgrade(data: &[u8]) -> (r: bool)
    requires
        data@.len() <= usize::MAX / 4,
    ensures
        r == request::upgrade_requested(data@),
        forall|req: HttpRequestView| #[trigger]
            request::is_plain_request(req) && data@ == types::written_request(req) ==> r
                == upgrade::asks_for_websocket(req.headers),
        forall|h: head::RequestHeadView| #[trigger]
            head::is_plain_head(h, head::MAX_HEADERS as nat) && head::head_bytes(h).is_prefix_of(
                data@,
            ) ==> r == upgrade::asks_for_websocket(message::stored_fields(h.headers)),
        head::is_unfinished_head(data@) ==> !r,
{
    let mut parser = HttpRequestParser::new();
    parser.extend(data);
    assert(parser@ =~= data@);
    parser.is_websocket_upgrade()
}

} // verus!
