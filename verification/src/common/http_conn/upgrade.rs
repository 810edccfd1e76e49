//! The change to the WebSocket protocol.

use crate::common::http_conn::connection;
use crate::common::http_conn::headers;
use http::HeaderMap;
use vstd::prelude::*;

verus! {

/// The fields of a request that asks for a WebSocket.
pub open spec fn asks_for_websocket(fields: Seq<(Seq<char>, Seq<u8>)>) -> bool {
    connection::changes_to_websocket(fields) && headers::lookup(fields, "sec-websocket-key"@) is Some
}

/// The status and fields of a response that grants a WebSocket.
pub open spec fn grants_websocket(status: u16, fields: Seq<(Seq<char>, Seq<u8>)>) -> bool {
    status == 101 && connection::changes_to_websocket(fields) && headers::lookup(
        fields,
        "sec-websocket-accept"@,
    ) is Some
}

/// Whether the header fields of a request ask for a WebSocket.
pub fn is_websocket_upgrade_request(headers: &HeaderMap) -> (r: bool)
    ensures
        r == asks_for_websocket(headers::header_fields(*headers)),
{
    proof {
        headers::lemma_known_names();
    }
    let has_upgrade = headers::header_mentions(headers, "upgrade", "websocket");
    let has_connection_upgrade = headers::header_mentions(headers, "connection", "upgrade");
    let has_sec_websocket_key = headers::has_header(headers, "sec-websocket-key");
    has_upgrade && has_connection_upgrade && has_sec_websocket_key
}

/// Whether the status and header fields of a response grant a WebSocket.
pub fn is_websocket_upgrade_response(status: u16, headers: &HeaderMap) -> (r: bool)
    ensures
        r == grants_websocket(status, headers::header_fields(*headers)),
{
    if status != 101 {
        return false;
    }
    proof {
        headers::lemma_known_names();
    }
    let has_upgrade = headers::header_mentions(headers, "upgrade", "websocket");
    let has_connection_upgrade = headers::header_mentions(headers, "connection", "upgrade");
    let has_sec_websocket_accept = headers::has_header(headers, "sec-websocket-accept");
    has_upgrade && has_connection_upgrade && has_sec_websocket_accept
}

/// A request that asks for a WebSocket has the upgrade connection type,
/// whatever its version and whatever else it says of the connection.
pub proof fn upgrade_requests_have_upgrade_type(
    fields: Seq<(Seq<char>, Seq<u8>)>,
    version: Seq<char>,
)
    ensures
        asks_for_websocket(fields) ==> connection::connection_type_of(fields, version)
            == connection::ConnectionType::WebSocketUpgrade,
{
}

/// A response that grants a WebSocket has the upgrade connection type.
pub proof fn upgrade_responses_have_upgrade_type(
    status: u16,
    fields: Seq<(Seq<char>, Seq<u8>)>,
    version: Seq<char>,
)
    ensures
        grants_websocket(status, fields) ==> connection::connection_type_of(fields, version)
            == connection::ConnectionType::WebSocketUpgrade,
{
}

/// The upgrade connection type is given to nothing but a request that asks for
/// a WebSocket and to fields that could grant one.
pub proof fn upgrade_type_means_upgrade(fields: Seq<(Seq<char>, Seq<u8>)>, version: Seq<char>)
    ensures
        connection::connection_type_of(fields, version)
            == connection::ConnectionType::WebSocketUpgrade ==> asks_for_websocket(fields)
            || grants_websocket(101, fields),
{
}

/// A request asks for a WebSocket exactly where its first `upgrade` field holds
/// `websocket`, its first `connection` field holds `upgrade`, both in any letter
/// case, and it has a key.
pub proof fn upgrade_requests_say_so(fields: Seq<(Seq<char>, Seq<u8>)>)
    ensures
        asks_for_websocket(fields) == (headers::first_holds(fields, "upgrade"@, "websocket"@)
            && headers::first_holds(fields, "connection"@, "upgrade"@) && headers::has_field(
            fields,
            "sec-websocket-key"@,
        )),
{
    headers::lemma_known_words();
    headers::lemma_mentions(fields, "upgrade"@, "websocket"@);
    headers::lemma_mentions(fields, "connection"@, "upgrade"@);
    headers::lookup_finds_the_first(fields, "sec-websocket-key"@);
}

/// A response grants a WebSocket exactly where its status is 101, its first
/// `upgrade` field holds `websocket`, its first `connection` field holds
/// `upgrade`, both in any letter case, and it accepts the key.
pub proof fn upgrade_responses_say_so(status: u16, fields: Seq<(Seq<char>, Seq<u8>)>)
    ensures
        grants_websocket(status, fields) == (status == 101 && headers::first_holds(
            fields,
            "upgrade"@,
            "websocket"@,
        ) && headers::first_holds(fields, "connection"@, "upgrade"@) && headers::has_field(
            fields,
            "sec-websocket-accept"@,
        )),
{
    headers::lemma_known_words();
    headers::lemma_mentions(fields, "upgrade"@, "websocket"@);
    headers::lemma_mentions(fields, "connection"@, "upgrade"@);
    headers::lookup_finds_the_first(fields, "sec-websocket-accept"@);
}

} // verus!
