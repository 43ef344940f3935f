//! The events that a client yields to its consumer.

use vstd::prelude::*;
use crate::protocol::{SessionId, SessionState, SessionStateView};

verus! {

/// The bytes of a JSON document that a peer sent; parsing is left to the
/// consumer.
#[derive(Debug, Clone, PartialEq, Eq)]
pub struct JsonMessage {
    pub contents: Vec<u8>,
}

/// An event of the client.
#[derive(Debug, Clone, PartialEq, Eq)]
pub enum Event {
    /// The handshake with the server has completed.
    ServerConnected { server_key: Vec<u8> },
    /// The handshake with a peer has completed.
    PeerConnected { peer_key: Vec<u8> },
    /// The server created a session.
    SessionCreated(SessionState),
    /// All participants of a session have connected to the server.
    SessionReady(SessionState),
    /// All participants of a session have connected to each other.
    SessionActive(SessionState),
    /// A session was closed.
    SessionFinished(SessionId),
    /// A peer sent opaque bytes.
    BinaryMessage { peer_key: Vec<u8>, message: Vec<u8>, session_id: Option<SessionId> },
    /// A peer sent a JSON document.
    JsonMessage { peer_key: Vec<u8>, message: JsonMessage, session_id: Option<SessionId> },
}

/// Mathematical value of an [`Event`].
pub enum EventView {
    ServerConnected { server_key: Seq<u8> },
    PeerConnected { peer_key: Seq<u8> },
    SessionCreated(SessionStateView),
    SessionReady(SessionStateView),
    SessionActive(SessionStateView),
    SessionFinished(SessionId),
    BinaryMessage { peer_key: Seq<u8>, message: Seq<u8>, session_id: Option<SessionId> },
    JsonMessage { peer_key: Seq<u8>, contents: Seq<u8>, session_id: Option<SessionId> },
}

impl View for Event {
    type V = EventView;

    open spec fn view(&self) -> EventView {
        match *self {
            Event::ServerConnected { server_key } => EventView::ServerConnected {
                server_key: server_key@,
            },
            Event::PeerConnected { peer_key } => EventView::PeerConnected { peer_key: peer_key@ },
            Event::SessionCreated(state) => EventView::SessionCreated(state@),
            Event::SessionReady(state) => EventView::SessionReady(state@),
            Event::SessionActive(state) => EventView::SessionActive(state@),
            Event::SessionFinished(id) => EventView::SessionFinished(id),
            Event::BinaryMessage { peer_key, message, session_id } => EventView::BinaryMessage {
                peer_key: peer_key@,
                message: message@,
                session_id,
            },
            Event::JsonMessage { peer_key, message, session_id } => EventView::JsonMessage {
                peer_key: peer_key@,
                contents: message.contents@,
                session_id,
            },
        }
    }
}

/// The value of an event that may be absent.
pub open spec fn event_view(event: Option<Event>) -> Option<EventView> {
    match event {
        Some(event) => Some(event@),
        None => None,
    }
}

} // verus!
