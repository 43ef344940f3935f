//! Messages exchanged with the relay server and their mathematical values.

use vstd::prelude::*;

verus! {

/// Name of the Noise pattern used by every channel.
pub const PATTERN: &'static str = "Noise_NK_25519_ChaChaPoly_BLAKE2s";

/// Length in bytes of the authentication tag that Noise appends to a message.
pub const TAGLEN: usize = 16;

/// Length in bytes of a static key of the pattern.
pub const KEY_LENGTH: usize = 32;

/// Length in bytes of the buffers that handshake messages are written to.
pub const HANDSHAKE_BUFFER: usize = 1024;

/// Largest number of bytes that a Noise message may hold.
pub const MAX_NOISE_MESSAGE: usize = 65535;

/// Largest number of bytes of an encoded frame.
pub const MAX_FRAME_LENGTH: usize = 1048576;

/// How the plaintext of an envelope is to be read.
#[derive(Debug, Clone, Copy, PartialEq, Eq, Structural)]
pub enum Encoding {
    /// No interpretation; never valid for a payload.
    Noop,
    /// Opaque bytes.
    Blob,
    /// The bytes of a JSON document.
    Json,
}

/// Identifier of a session, minted by the server.
#[derive(Debug, Clone, Copy, PartialEq, Eq, Structural, Hash)]
pub struct SessionId(pub u128);

/// A ciphertext with its framing.
///
/// Only the first `length` bytes of `payload` are significant.
#[derive(Debug, Clone, PartialEq, Eq)]
pub struct SealedEnvelope {
    pub length: u32,
    pub encoding: Encoding,
    pub payload: Vec<u8>,
    pub broadcast: bool,
}

/// Mathematical value of a [`SealedEnvelope`].
pub struct EnvelopeView {
    pub length: u32,
    pub encoding: Encoding,
    pub payload: Seq<u8>,
    pub broadcast: bool,
}

impl View for SealedEnvelope {
    type V = EnvelopeView;

    open spec fn view(&self) -> EnvelopeView {
        EnvelopeView {
            length: self.length,
            encoding: self.encoding,
            payload: self.payload@,
            broadcast: self.broadcast,
        }
    }
}

/// One message of a handshake: a buffer and the number of its bytes in use.
#[derive(Debug, Clone, PartialEq, Eq)]
pub enum HandshakeMessage {
    Initiator(usize, Vec<u8>),
    Responder(usize, Vec<u8>),
}

/// Mathematical value of a [`HandshakeMessage`].
pub enum HandshakeView {
    Initiator(usize, Seq<u8>),
    Responder(usize, Seq<u8>),
}

impl View for HandshakeMessage {
    type V = HandshakeView;

    open spec fn view(&self) -> HandshakeView {
        match *self {
            HandshakeMessage::Initiator(len, buf) => HandshakeView::Initiator(len, buf@),
            HandshakeMessage::Responder(len, buf) => HandshakeView::Responder(len, buf@),
        }
    }
}

/// Unencrypted framing, used while a channel is being set up.
#[derive(Debug, Clone, PartialEq, Eq)]
pub enum TransparentMessage {
    ServerHandshake(HandshakeMessage),
    PeerHandshake { public_key: Vec<u8>, message: HandshakeMessage },
}

/// Mathematical value of a [`TransparentMessage`].
pub enum TransparentView {
    ServerHandshake(HandshakeView),
    PeerHandshake { public_key: Seq<u8>, message: HandshakeView },
}

impl View for TransparentMessage {
    type V = TransparentView;

    open spec fn view(&self) -> TransparentView {
        match *self {
            TransparentMessage::ServerHandshake(message) => TransparentView::ServerHandshake(
                message@,
            ),
            TransparentMessage::PeerHandshake { public_key, message } => {
                TransparentView::PeerHandshake { public_key: public_key@, message: message@ }
            },
        }
    }
}

/// Encrypted framing, used once a channel has completed its handshake.
#[derive(Debug, Clone, PartialEq, Eq)]
pub enum OpaqueMessage {
    ServerMessage(SealedEnvelope),
    PeerMessage { public_key: Vec<u8>, session_id: Option<SessionId>, envelope: SealedEnvelope },
}

/// Mathematical value of an [`OpaqueMessage`].
pub enum OpaqueView {
    ServerMessage(EnvelopeView),
    PeerMessage { public_key: Seq<u8>, session_id: Option<SessionId>, envelope: EnvelopeView },
}

impl View for OpaqueMessage {
    type V = OpaqueView;

    open spec fn view(&self) -> OpaqueView {
        match *self {
            OpaqueMessage::ServerMessage(envelope) => OpaqueView::ServerMessage(envelope@),
            OpaqueMessage::PeerMessage { public_key, session_id, envelope } => {
                OpaqueView::PeerMessage {
                    public_key: public_key@,
                    session_id,
                    envelope: envelope@,
                }
            },
        }
    }
}

/// Mathematical value of a framed message, in either direction.
pub enum MessageView {
    Transparent(TransparentView),
    Opaque(OpaqueView),
}

/// A message sent to the server.
#[derive(Debug, Clone, PartialEq, Eq)]
pub enum RequestMessage {
    Transparent(TransparentMessage),
    Opaque(OpaqueMessage),
}

impl View for RequestMessage {
    type V = MessageView;

    open spec fn view(&self) -> MessageView {
        match *self {
            RequestMessage::Transparent(message) => MessageView::Transparent(message@),
            RequestMessage::Opaque(message) => MessageView::Opaque(message@),
        }
    }
}

/// A message received from the server.
#[derive(Debug, Clone, PartialEq, Eq)]
pub enum ResponseMessage {
    Transparent(TransparentMessage),
    Opaque(OpaqueMessage),
}

impl View for ResponseMessage {
    type V = MessageView;

    open spec fn view(&self) -> MessageView {
        match *self {
            ResponseMessage::Transparent(message) => MessageView::Transparent(message@),
            ResponseMessage::Opaque(message) => MessageView::Opaque(message@),
        }
    }
}

/// The participants of a session that is to be created.
#[derive(Debug, Clone, PartialEq, Eq)]
pub struct SessionRequest {
    pub participant_keys: Vec<Vec<u8>>,
}

/// What the server knows of a session.
#[derive(Debug, Clone, PartialEq, Eq)]
pub struct SessionState {
    pub session_id: SessionId,
    pub all_participants: Vec<Vec<u8>>,
}

/// Mathematical value of a [`SessionState`].
pub struct SessionStateView {
    pub session_id: SessionId,
    pub all_participants: Seq<Seq<u8>>,
}

/// The keys of a list, each as a sequence of bytes.
pub open spec fn keys_view(keys: Seq<Vec<u8>>) -> Seq<Seq<u8>> {
    Seq::new(keys.len(), |i: int| keys[i]@)
}

impl View for SessionState {
    type V = SessionStateView;

    open spec fn view(&self) -> SessionStateView {
        SessionStateView {
            session_id: self.session_id,
            all_participants: keys_view(self.all_participants@),
        }
    }
}

/// Plaintext exchanged with the server over its encrypted channel.
#[derive(Debug, Clone, PartialEq, Eq)]
pub enum ServerMessage {
    Error(u16, String),
    NewSession(SessionRequest),
    SessionCreated(SessionState),
    SessionReadyNotify(SessionId),
    SessionReady(SessionState),
    SessionConnection { session_id: SessionId, peer_key: Vec<u8> },
    SessionActiveNotify(SessionId),
    SessionActive(SessionState),
    CloseSession(SessionId),
    SessionFinished(SessionId),
}

/// Mathematical value of a [`ServerMessage`].
pub enum ServerMessageView {
    Error(u16, Seq<char>),
    NewSession(Seq<Seq<u8>>),
    SessionCreated(SessionStateView),
    SessionReadyNotify(SessionId),
    SessionReady(SessionStateView),
    SessionConnection { session_id: SessionId, peer_key: Seq<u8> },
    SessionActiveNotify(SessionId),
    SessionActive(SessionStateView),
    CloseSession(SessionId),
    SessionFinished(SessionId),
}

impl View for ServerMessage {
    type V = ServerMessageView;

    open spec fn view(&self) -> ServerMessageView {
        match *self {
            ServerMessage::Error(code, text) => ServerMessageView::Error(code, text@),
            ServerMessage::NewSession(request) => ServerMessageView::NewSession(
                keys_view(request.participant_keys@),
            ),
            ServerMessage::SessionCreated(state) => ServerMessageView::SessionCreated(state@),
            ServerMessage::SessionReadyNotify(id) => ServerMessageView::SessionReadyNotify(id),
            ServerMessage::SessionReady(state) => ServerMessageView::SessionReady(state@),
            ServerMessage::SessionConnection { session_id, peer_key } => {
                ServerMessageView::SessionConnection { session_id, peer_key: peer_key@ }
            },
            ServerMessage::SessionActiveNotify(id) => ServerMessageView::SessionActiveNotify(id),
            ServerMessage::SessionActive(state) => ServerMessageView::SessionActive(state@),
            ServerMessage::CloseSession(id) => ServerMessageView::CloseSession(id),
            ServerMessage::SessionFinished(id) => ServerMessageView::SessionFinished(id),
        }
    }
}

} // verus!
