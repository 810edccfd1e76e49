//! What arrives at the control port of a server.

use crate::common::protocol;
use crate::server::client_manager;
use crate::server::types::ProxyClientInfo;
use vstd::prelude::*;

verus! {

/// What a new connection is.
#[derive(Debug)]
pub enum Incoming {
    /// The call back for a handshake.
    Callback(String),
    /// A client that wants to register.
    Registration,
}

/// What an `Incoming` holds.
pub enum IncomingView {
    Callback(Seq<char>),
    Registration,
}

impl View for Incoming {
    type V = IncomingView;

    open spec fn view(&self) -> IncomingView {
        match self {
            Incoming::Callback(id) => IncomingView::Callback(id@),
            Incoming::Registration => IncomingView::Registration,
        }
    }
}

/// What a connection is that begins with these bytes.
pub open spec fn incoming_of(peeked: Seq<u8>) -> IncomingView {
    match protocol::callback_id(peeked) {
        Some(id) => IncomingView::Callback(id),
        None => IncomingView::Registration,
    }
}

/// What a connection is that begins with these bytes: a call back where they
/// say so, else a client that wants to register.
pub fn classify_connection(peeked: &[u8]) -> (r: Incoming)
    ensures
        match protocol::callback_id(peeked@) {
            Some(id) => r matches Incoming::Callback(s) && s@ == id,
            None => r is Registration,
        },
        r@ == incoming_of(peeked@),
{
    match protocol::parse_callback(peeked) {
        Some(id) => Incoming::Callback(id),
        None => Incoming::Registration,
    }
}

/// The call back that a client makes for the handshake that a server made
/// known reaches what the server waits with: from the registration of the
/// handshake, over the lines that carry its name, to the one who waits.
pub proof fn callbacks_reach_their_handshake<C>(
    clients: Seq<ProxyClientInfo<C>>,
    millis: i64,
    port: u16,
)
    requires
        clients.len() > 0,
        clients.last().handshake_id@ == protocol::session_name(millis, port),
        client_manager::find_client(
            clients.drop_last(),
            protocol::session_name(millis, port),
        ) is None,
    ensures
        ({
            let sent = protocol::connect_request(
                protocol::connect_line(protocol::session_name(millis, port)),
            );
            &&& sent is Handshake
            &&& protocol::callback_id(
                vstd::utf8::encode_utf8(protocol::callback_line(sent->Handshake_0)),
            ) matches Some(id) && client_manager::find_client(clients, id) == Some(
                clients.len() - 1,
            )
        }),
{
    protocol::handshake_survives_the_exchange(millis, port);
    client_manager::registered_handshakes_are_found(clients, protocol::session_name(millis, port));
}

/// A connection is a call back exactly where its bytes name a handshake, and then
/// for that handshake; every other wants to register.
pub proof fn call_backs_are_told_from_registrations(peeked: Seq<u8>)
    ensures
        protocol::callback_id(peeked) is None ==> incoming_of(peeked) == IncomingView::Registration,
        protocol::callback_id(peeked) matches Some(id) ==> incoming_of(peeked)
            == IncomingView::Callback(id),
{
}

} // verus!
