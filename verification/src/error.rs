//! Errors reported by the client core.

use vstd::prelude::*;

verus! {

/// The class of a protocol failure: those that the Noise library reports,
/// and those that this crate finds in a message that decoded well.
#[derive(Debug, Clone, Copy, PartialEq, Eq, Structural)]
pub enum ProtocolFailure {
    /// The pattern name could not be parsed.
    Pattern,
    /// A primitive named by the pattern could not be set up.
    Init,
    /// A key that the pattern needs was not supplied.
    Prereq,
    /// The operation does not fit the state of the session.
    State,
    /// A length was out of range.
    Input,
    /// The Diffie-Hellman computation failed.
    Dh,
    /// Authentication of a ciphertext failed.
    Decrypt,
    /// A failure of the Noise library of a class that this crate does not know.
    Other,
    /// An envelope carried an encoding that is not allowed where it arrived.
    UnexpectedEncoding,
    /// A message arrived that a client never receives.
    UnexpectedMessage,
}

/// Errors returned by the client core.
#[derive(Debug, Clone, PartialEq, Eq)]
pub enum ClientError {
    /// The channel is not in its handshake phase.
    NotHandshakeState,
    /// The channel has not completed its handshake.
    NotTransportState,
    /// A handshake with this peer was already started locally.
    PeerAlreadyExists,
    /// An incoming handshake collided with an existing entry for the peer.
    PeerAlreadyExistsMaybeRace,
    /// No channel exists for the peer; carries the key in hexadecimal.
    PeerNotFound(String),
    /// The server reported an error.
    ServerError(u16, String),
    /// The upgrade request was answered with an unexpected status.
    HttpError(u16, String),
    /// The Noise library reported a failure, or a message broke the protocol.
    ProtocolError(ProtocolFailure),
    /// A message does not fit a frame.
    EncodeError,
    /// A frame is not the encoding of a message.
    DecodeError,
    /// The transport failed to read or to write; carries its report.
    TransportError(String),
}

/// Mathematical value of a [`ClientError`].
pub enum ErrorView {
    NotHandshakeState,
    NotTransportState,
    PeerAlreadyExists,
    PeerAlreadyExistsMaybeRace,
    PeerNotFound(Seq<char>),
    ServerError(u16, Seq<char>),
    HttpError(u16, Seq<char>),
    ProtocolError(ProtocolFailure),
    EncodeError,
    DecodeError,
    TransportError(Seq<char>),
}

impl View for ClientError {
    type V = ErrorView;

    open spec fn view(&self) -> ErrorView {
        match *self {
            ClientError::NotHandshakeState => ErrorView::NotHandshakeState,
            ClientError::NotTransportState => ErrorView::NotTransportState,
            ClientError::PeerAlreadyExists => ErrorView::PeerAlreadyExists,
            ClientError::PeerAlreadyExistsMaybeRace => ErrorView::PeerAlreadyExistsMaybeRace,
            ClientError::PeerNotFound(key) => ErrorView::PeerNotFound(key@),
            ClientError::ServerError(code, text) => ErrorView::ServerError(code, text@),
            ClientError::HttpError(code, text) => ErrorView::HttpError(code, text@),
            ClientError::ProtocolError(kind) => ErrorView::ProtocolError(kind),
            ClientError::EncodeError => ErrorView::EncodeError,
            ClientError::DecodeError => ErrorView::DecodeError,
            ClientError::TransportError(text) => ErrorView::TransportError(text@),
        }
    }
}

} // verus!
