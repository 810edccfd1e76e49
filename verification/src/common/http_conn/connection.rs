//! How long a connection lives.

use crate::common::http_conn::headers;
use crate::text;
use http::HeaderMap;
use vstd::prelude::*;

verus! {

/// What a message says about the connection that carries it.
#[derive(Debug, Clone, Copy, PartialEq, Eq, Structural)]
pub enum ConnectionType {
    /// The connection serves further exchanges.
    KeepAlive,
    /// The connection ends with this exchange.
    Close,
    /// The connection changes to the WebSocket protocol.
    WebSocketUpgrade,
}

/// The fields ask for, or grant, a change to the WebSocket protocol.
pub open spec fn changes_to_websocket(fields: Seq<(Seq<char>, Seq<u8>)>) -> bool {
    &&& headers::mentions(fields, "upgrade"@, "websocket"@)
    &&& headers::mentions(fields, "connection"@, "upgrade"@)
}

/// The connection type that the fields and the version give.
pub open spec fn connection_type_of(
    fields: Seq<(Seq<char>, Seq<u8>)>,
    version: Seq<char>,
) -> ConnectionType {
    if changes_to_websocket(fields) && (headers::lookup(fields, "sec-websocket-key"@) is Some
        || headers::lookup(fields, "sec-websocket-accept"@) is Some) {
        ConnectionType::WebSocketUpgrade
    } else if headers::mentions(fields, "connection"@, "close"@) {
        ConnectionType::Close
    } else if headers::mentions(fields, "connection"@, "keep-alive"@) {
        ConnectionType::KeepAlive
    } else if version == "HTTP/1.0"@ {
        ConnectionType::Close
    } else {
        ConnectionType::KeepAlive
    }
}

/// Determines the connection type from the header fields and the version.
pub fn determine_connection_type(headers: &HeaderMap, version: &str) -> (r: ConnectionType)
    ensures
        r == connection_type_of(headers::header_fields(*headers), version@),
{
    proof {
        headers::lemma_known_names();
    }
    if headers::header_mentions(headers, "upgrade", "websocket") && headers::header_mentions(
        headers,
        "connection",
        "upgrade",
    ) {
        if headers::has_header(headers, "sec-websocket-key") || headers::has_header(
            headers,
            "sec-websocket-accept",
        ) {
            return ConnectionType::WebSocketUpgrade;
        }
    }
    if headers::header_mentions(headers, "connection", "close") {
        return ConnectionType::Close;
    }
    if headers::header_mentions(headers, "connection", "keep-alive") {
        return ConnectionType::KeepAlive;
    }
    if text::same_text(version, "HTTP/1.0") {
        ConnectionType::Close
    } else {
        ConnectionType::KeepAlive
    }
}

// ---------------------------------------------------------------------------
// Laws
// ---------------------------------------------------------------------------

/// The fields change the connection to a WebSocket: the first `upgrade` field
/// holds `websocket`, the first `connection` field holds `upgrade`, and there is
/// a key to ask with or to accept with.
pub open spec fn is_websocket_change(fields: Seq<(Seq<char>, Seq<u8>)>) -> bool {
    &&& headers::first_holds(fields, "upgrade"@, "websocket"@)
    &&& headers::first_holds(fields, "connection"@, "upgrade"@)
    &&& headers::has_field(fields, "sec-websocket-key"@) || headers::has_field(
        fields,
        "sec-websocket-accept"@,
    )
}

proof fn lemma_fields_read(fields: Seq<(Seq<char>, Seq<u8>)>)
    ensures
        headers::mentions(fields, "upgrade"@, "websocket"@) == headers::first_holds(
            fields,
            "upgrade"@,
            "websocket"@,
        ),
        headers::mentions(fields, "connection"@, "upgrade"@) == headers::first_holds(
            fields,
            "connection"@,
            "upgrade"@,
        ),
        headers::mentions(fields, "connection"@, "close"@) == headers::first_holds(
            fields,
            "connection"@,
            "close"@,
        ),
        headers::mentions(fields, "connection"@, "keep-alive"@) == headers::first_holds(
            fields,
            "connection"@,
            "keep-alive"@,
        ),
        (headers::lookup(fields, "sec-websocket-key"@) is Some) == headers::has_field(
            fields,
            "sec-websocket-key"@,
        ),
        (headers::lookup(fields, "sec-websocket-accept"@) is Some) == headers::has_field(
            fields,
            "sec-websocket-accept"@,
        ),
{
    headers::lemma_known_words();
    headers::lemma_mentions(fields, "upgrade"@, "websocket"@);
    headers::lemma_mentions(fields, "connection"@, "upgrade"@);
    headers::lemma_mentions(fields, "connection"@, "close"@);
    headers::lemma_mentions(fields, "connection"@, "keep-alive"@);
    headers::lookup_finds_the_first(fields, "sec-websocket-key"@);
    headers::lookup_finds_the_first(fields, "sec-websocket-accept"@);
}

/// A connection changes to a WebSocket exactly where the fields say so,
/// whatever else they say and whatever the version is.
pub proof fn websocket_changes_are_obeyed(fields: Seq<(Seq<char>, Seq<u8>)>, version: Seq<char>)
    ensures
        (connection_type_of(fields, version) == ConnectionType::WebSocketUpgrade)
            == is_websocket_change(fields),
{
    lemma_fields_read(fields);
}

/// A connection that does not change to a WebSocket is closed where the first
/// `connection` field holds `close` in any letter case, whatever the other
/// fields and the version are.
pub proof fn closing_fields_close(
    fields: Seq<(Seq<char>, Seq<u8>)>,
    version: Seq<char>,
    i: int,
)
    requires
        headers::is_first(fields, "connection"@, i),
        headers::holds_word(fields[i].1, "close"@),
        !is_websocket_change(fields),
    ensures
        connection_type_of(fields, version) == ConnectionType::Close,
{
    lemma_fields_read(fields);
}

/// A connection that does not change to a WebSocket is kept alive where the
/// first `connection` field holds `keep-alive` and not `close`, whatever the
/// other fields and the version are.
pub proof fn keeping_fields_keep(fields: Seq<(Seq<char>, Seq<u8>)>, version: Seq<char>, i: int)
    requires
        headers::is_first(fields, "connection"@, i),
        headers::holds_word(fields[i].1, "keep-alive"@),
        !headers::holds_word(fields[i].1, "close"@),
        !is_websocket_change(fields),
    ensures
        connection_type_of(fields, version) == ConnectionType::KeepAlive,
{
    headers::lemma_known_words();
    lemma_fields_read(fields);
    headers::values_are_read_in_any_letter_case(fields, "connection"@, "close"@);
}

/// Where no `connection` field says otherwise, exactly the connections of
/// HTTP/1.0 are closed.
pub proof fn silent_fields_leave_it_to_the_version(
    fields: Seq<(Seq<char>, Seq<u8>)>,
    version: Seq<char>,
)
    requires
        forall|i: int| #[trigger] headers::is_first(fields, "connection"@, i) ==> {
            &&& !headers::holds_word(fields[i].1, "close"@)
            &&& !headers::holds_word(fields[i].1, "keep-alive"@)
        },
        !is_websocket_change(fields),
    ensures
        connection_type_of(fields, version) == (if version == "HTTP/1.0"@ {
            ConnectionType::Close
        } else {
            ConnectionType::KeepAlive
        }),
{
    lemma_fields_read(fields);
}

/// A field that has nothing to do with how a connection goes on can stand
/// anywhere among the others without a difference.
pub proof fn other_fields_do_not_matter(
    before: Seq<(Seq<char>, Seq<u8>)>,
    other: (Seq<char>, Seq<u8>),
    after: Seq<(Seq<char>, Seq<u8>)>,
    version: Seq<char>,
)
    requires
        other.0 != "connection"@,
        other.0 != "upgrade"@,
        other.0 != "sec-websocket-key"@,
        other.0 != "sec-websocket-accept"@,
    ensures
        connection_type_of(before.push(other) + after, version) == connection_type_of(
            before + after,
            version,
        ),
{
    headers::lookup_passes_other_names_over(before, other, after, "connection"@);
    headers::lookup_passes_other_names_over(before, other, after, "upgrade"@);
    headers::lookup_passes_other_names_over(before, other, after, "sec-websocket-key"@);
    headers::lookup_passes_other_names_over(before, other, after, "sec-websocket-accept"@);
}

} // verus!
