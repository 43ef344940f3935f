//! The facade of the client: each operation changes the channels as far as
//! it must and returns the request that is to be sent to the server.

use vstd::prelude::*;
use crate::bytes::copy_bytes;
use crate::channel::Phase;
use crate::codec::encode_server_message;
use crate::error::{ClientError, ErrorView, ProtocolFailure};
use crate::event_loop::EventLoop;
use crate::handshake::{handshake_request, is_written, keys_fit, noise_builds};
use crate::peers::{refusal, Peers};
use crate::protocol::{
    keys_view, Encoding, MessageView, OpaqueMessage, OpaqueView, RequestMessage, ServerMessage,
    ServerMessageView, SessionId, SessionRequest, TransparentView, MAX_FRAME_LENGTH,
    MAX_NOISE_MESSAGE, TAGLEN,
};
use crate::channel::is_peer_request;
use crate::server::ServerChannel;
use crate::trace::{step, ChannelsView};
use crate::wire::wire_server_message;

verus! {

/// The status with which the server accepts the upgrade of the connection.
pub const SWITCHING_PROTOCOLS: u16 = 101;

/// A static key pair of the Noise pattern.
#[derive(Debug, Clone, PartialEq, Eq)]
pub struct Keypair {
    pub private: Vec<u8>,
    pub public: Vec<u8>,
}

/// What a client is configured with.
#[derive(Debug, Clone, PartialEq, Eq)]
pub struct ClientOptions {
    /// The static key pair of this client.
    pub keypair: Keypair,
    /// The static public key that the server is expected to hold.
    pub server_public_key: Vec<u8>,
}

impl ClientOptions {
    /// Whether two sets of options hold the same keys.
    pub open spec fn same(&self, other: &ClientOptions) -> bool {
        &&& self.keypair.private@ == other.keypair.private@
        &&& self.keypair.public@ == other.keypair.public@
        &&& self.server_public_key@ == other.server_public_key@
    }

    /// A copy of the options.
    pub fn duplicate(&self) -> (r: ClientOptions)
        ensures
            r.same(self),
    {
        ClientOptions {
            keypair: Keypair {
                private: copy_bytes(self.keypair.private.as_slice()),
                public: copy_bytes(self.keypair.public.as_slice()),
            },
            server_public_key: copy_bytes(self.server_public_key.as_slice()),
        }
    }
}

/// The channels of a client: the one to the server and those to its peers.
///
/// The facade and the event loop work on the same channels.
///
/// Only the facade and the event loop change them, so that every change is
/// one of the moves that [`step`] allows.
pub struct Channels {
    pub(crate) server: ServerChannel,
    pub(crate) peers: Peers,
}

impl View for Channels {
    type V = ChannelsView;

    closed spec fn view(&self) -> ChannelsView {
        ChannelsView { server: self.server@, peers: self.peers@ }
    }
}

/// The phases of the channels are those of the channel to the server and of
/// the registry of peers.
pub(crate) broadcast proof fn lemma_channels_view(channels: Channels)
    ensures
        #[trigger] channels@ == (ChannelsView { server: channels.server@, peers: channels.peers@ }),
{
}

impl Channels {
    /// The phase of the channel to the server, if its state is present.
    pub fn server_phase(&self) -> (r: Option<Phase>)
        ensures
            r == self@.server,
    {
        self.server.phase()
    }

    /// The phase of the channel of a peer, if it has one.
    pub fn peer_phase(&self, peer_key: &[u8]) -> (r: Option<Phase>)
        ensures
            r == (if self@.peers.dom().contains(peer_key@) {
                Some(self@.peers[peer_key@])
            } else {
                None
            }),
    {
        self.peers.phase(peer_key)
    }
}

/// Whether a message is a handshake message that this crate wrote, by the
/// given side, for the server (`peer` is `None`) or for a peer: its buffer
/// has the fixed length, and the number of its bytes in use is no less than
/// one tag and lies within the buffer.
pub open spec fn is_handshake_request(
    message: MessageView,
    peer: Option<Seq<u8>>,
    responder: bool,
) -> bool {
    match message {
        MessageView::Transparent(TransparentView::ServerHandshake(handshake)) => peer is None
            && is_written(handshake, responder),
        MessageView::Transparent(TransparentView::PeerHandshake { public_key, message }) => peer
            == Some(public_key) && is_written(message, responder),
        MessageView::Opaque(_) => false,
    }
}

/// Whether a message is an encrypted control message for the server whose
/// plaintext has `plaintext_len` bytes.
pub open spec fn is_server_request(message: MessageView, plaintext_len: nat) -> bool {
    match message {
        MessageView::Opaque(OpaqueView::ServerMessage(envelope)) => {
            &&& envelope.encoding == Encoding::Blob
            &&& !envelope.broadcast
            &&& envelope.length == plaintext_len + TAGLEN
            &&& envelope.payload.len() == plaintext_len + TAGLEN
        },
        _ => false,
    }
}

/// What a broadcast returns: one request for each recipient before the
/// first failure, each addressed to its recipient, marked as a broadcast
/// and scoped to the session. The outcome is `Ok` where no recipient
/// failed; else it is the refusal of the first recipient that failed,
/// invalid input where the payload with its tag does not fit a Noise
/// message, or a protocol error where the Noise library failed on it.
pub open spec fn broadcast_done(
    channels: ChannelsView,
    session_id: SessionId,
    recipients: Seq<Vec<u8>>,
    payload: Seq<u8>,
    encoding: Encoding,
    requests: Seq<RequestMessage>,
    outcome: Result<(), ClientError>,
) -> bool {
    &&& requests.len() <= recipients.len()
    &&& forall|j: int|
        0 <= j < requests.len() ==> {
            &&& refusal(channels.peers, #[trigger] recipients[j]@) is None
            &&& is_peer_request(
                requests[j]@,
                recipients[j]@,
                Some(session_id),
                encoding,
                true,
                payload.len(),
            )
        }
    &&& match outcome {
        Ok(_) => requests.len() == recipients.len(),
        Err(e) => requests.len() < recipients.len() && (match refusal(
            channels.peers,
            recipients[requests.len() as int]@,
        ) {
            Some(refused) => e@ == refused,
            None => if payload.len() + TAGLEN > MAX_NOISE_MESSAGE {
                e@ == ErrorView::ProtocolError(ProtocolFailure::Input)
            } else {
                e@ is ProtocolError
            },
        }),
    }
}

/// The facade of a client.
pub struct NativeClient {
    options: ClientOptions,
}

impl NativeClient {
    /// The options that the client was made with.
    pub closed spec fn options(&self) -> ClientOptions {
        self.options
    }

    /// Makes a client, its event loop and their channels, once the server
    /// has answered the upgrade request.
    ///
    /// Any status but `101 Switching Protocols` fails with `HttpError`.
    /// Otherwise the client is made exactly when the keys have the length
    /// of the pattern and the Noise library builds the initiator for them:
    /// a handshake with the server is then open, and no peer has a channel.
    pub fn new(status: u16, status_text: String, options: ClientOptions) -> (r: Result<
        (NativeClient, EventLoop, Channels),
        ClientError,
    >)
        ensures
            status != SWITCHING_PROTOCOLS ==> r is Err && r->Err_0@ == ErrorView::HttpError(
                status,
                status_text@,
            ),
            status == SWITCHING_PROTOCOLS ==> match r {
                Ok((client, event_loop, channels)) => {
                    &&& client.options().same(&options)
                    &&& event_loop.options().same(&options)
                    &&& channels@.initial()
                },
                Err(e) => e@ is ProtocolError,
            },
            status == SWITCHING_PROTOCOLS ==> (r is Ok <==> keys_fit(
                options.keypair.private@,
                options.server_public_key@,
            ) && noise_builds(options.keypair.private@, options.server_public_key@, true)),
            status == SWITCHING_PROTOCOLS && !keys_fit(
                options.keypair.private@,
                options.server_public_key@,
            ) ==> r is Err && r->Err_0@ == ErrorView::ProtocolError(ProtocolFailure::Input),
    {
        if status != SWITCHING_PROTOCOLS {
            return Err(ClientError::HttpError(status, status_text));
        }
        let server = ServerChannel::initialize(
            options.keypair.private.as_slice(),
            options.server_public_key.as_slice(),
        )?;
        let channels = Channels { server, peers: Peers::new() };
        let event_loop = EventLoop::new(options.duplicate());
        Ok((NativeClient { options }, event_loop, channels))
    }

    /// The public key for this client.
    pub fn public_key(&self) -> (r: &[u8])
        ensures
            r@ == self.options().keypair.public@,
    {
        self.options.keypair.public.as_slice()
    }

    /// Produces the first message of the handshake with the server: the
    /// request that carries what the initiator wrote, with at least one tag
    /// of bytes in use.
    ///
    /// Fails with `NotHandshakeState` unless the channel to the server is in
    /// its handshake phase. No channel changes its phase.
    pub fn connect(&self, channels: &mut Channels) -> (r: Result<RequestMessage, ClientError>)
        ensures
            final(channels)@ == old(channels)@,
            old(channels)@.server != Some(Phase::Handshake) ==> r is Err && r->Err_0@
                == ErrorView::NotHandshakeState,
            old(channels)@.server == Some(Phase::Handshake) ==> match r {
                Ok(request) => is_handshake_request(request@, None, false),
                Err(e) => e@ is ProtocolError,
            },
            step(old(channels)@, final(channels)@, None),
    {
        let message = channels.server.write_first()?;
        Ok(handshake_request(None, message))
    }

    /// Opens a handshake with a peer and produces its first message.
    ///
    /// Fails with `PeerAlreadyExists` where the peer has a channel. On
    /// success the peer has a channel in its handshake phase, and the
    /// request carries what the initiator wrote for that peer; on failure
    /// the channels are as they were. A success is had only with keys of the
    /// pattern's length for which the Noise library builds the initiator.
    pub fn connect_peer(&self, channels: &mut Channels, public_key: &[u8]) -> (r: Result<
        RequestMessage,
        ClientError,
    >)
        ensures
            final(channels)@.server == old(channels)@.server,
            match r {
                Ok(request) => {
                    &&& !old(channels)@.peers.dom().contains(public_key@)
                    &&& final(channels)@.peers == old(channels)@.peers.insert(
                        public_key@,
                        Phase::Handshake,
                    )
                    &&& is_handshake_request(request@, Some(public_key@), false)
                    &&& keys_fit(self.options().keypair.private@, public_key@)
                    &&& noise_builds(self.options().keypair.private@, public_key@, true)
                },
                Err(e) => {
                    &&& final(channels)@ == old(channels)@
                    &&& (if old(channels)@.peers.dom().contains(public_key@) {
                        e@ == ErrorView::PeerAlreadyExists
                    } else {
                        e@ is ProtocolError
                    })
                },
            },
            !old(channels)@.peers.dom().contains(public_key@) && !keys_fit(
                self.options().keypair.private@,
                public_key@,
            ) ==> r is Err && r->Err_0@ == ErrorView::ProtocolError(ProtocolFailure::Input),
            step(old(channels)@, final(channels)@, None),
    {
        let message = channels.peers.begin_initiator(
            self.options.keypair.private.as_slice(),
            public_key,
        )?;
        Ok(handshake_request(Some(public_key), message))
    }

    /// Encrypts a payload for a peer and addresses it.
    ///
    /// Fails with `PeerNotFound` where the peer has no channel and with
    /// `NotTransportState` where its handshake is open. No channel changes
    /// its phase.
    pub fn relay(
        &self,
        channels: &mut Channels,
        public_key: &[u8],
        payload: &[u8],
        encoding: Encoding,
        broadcast: bool,
        session_id: Option<SessionId>,
    ) -> (r: Result<RequestMessage, ClientError>)
        ensures
            final(channels)@ == old(channels)@,
            match refusal(old(channels)@.peers, public_key@) {
                Some(e) => r is Err && r->Err_0@ == e,
                None => match r {
                    Ok(request) => is_peer_request(
                        request@,
                        public_key@,
                        session_id,
                        encoding,
                        broadcast,
                        payload@.len(),
                    ),
                    Err(e) => e@ is ProtocolError,
                },
            },
            payload@.len() + TAGLEN > MAX_NOISE_MESSAGE ==> r is Err,
            refusal(old(channels)@.peers, public_key@) is None && payload@.len() + TAGLEN
                > MAX_NOISE_MESSAGE ==> r is Err && r->Err_0@ == ErrorView::ProtocolError(
                ProtocolFailure::Input,
            ),
            step(old(channels)@, final(channels)@, None),
    {
        channels.peers.encrypt(public_key, payload, encoding, broadcast, session_id)
    }

    /// Sends the text of a JSON document to a peer via the relay service.
    pub fn send(
        &self,
        channels: &mut Channels,
        public_key: &[u8],
        payload: &[u8],
        session_id: Option<SessionId>,
    ) -> (r: Result<RequestMessage, ClientError>)
        ensures
            final(channels)@ == old(channels)@,
            match refusal(old(channels)@.peers, public_key@) {
                Some(e) => r is Err && r->Err_0@ == e,
                None => match r {
                    Ok(request) => is_peer_request(
                        request@,
                        public_key@,
                        session_id,
                        Encoding::Json,
                        false,
                        payload@.len(),
                    ),
                    Err(e) => e@ is ProtocolError,
                },
            },
            payload@.len() + TAGLEN > MAX_NOISE_MESSAGE ==> r is Err,
            refusal(old(channels)@.peers, public_key@) is None && payload@.len() + TAGLEN
                > MAX_NOISE_MESSAGE ==> r is Err && r->Err_0@ == ErrorView::ProtocolError(
                ProtocolFailure::Input,
            ),
            step(old(channels)@, final(channels)@, None),
    {
        self.relay(channels, public_key, payload, Encoding::Json, false, session_id)
    }

    /// Sends a binary message to a peer via the relay service.
    pub fn send_blob(
        &self,
        channels: &mut Channels,
        public_key: &[u8],
        payload: &[u8],
        session_id: Option<SessionId>,
    ) -> (r: Result<RequestMessage, ClientError>)
        ensures
            final(channels)@ == old(channels)@,
            match refusal(old(channels)@.peers, public_key@) {
                Some(e) => r is Err && r->Err_0@ == e,
                None => match r {
                    Ok(request) => is_peer_request(
                        request@,
                        public_key@,
                        session_id,
                        Encoding::Blob,
                        false,
                        payload@.len(),
                    ),
                    Err(e) => e@ is ProtocolError,
                },
            },
            payload@.len() + TAGLEN > MAX_NOISE_MESSAGE ==> r is Err,
            refusal(old(channels)@.peers, public_key@) is None && payload@.len() + TAGLEN
                > MAX_NOISE_MESSAGE ==> r is Err && r->Err_0@ == ErrorView::ProtocolError(
                ProtocolFailure::Input,
            ),
            step(old(channels)@, final(channels)@, None),
    {
        self.relay(channels, public_key, payload, Encoding::Blob, false, session_id)
    }

    /// What `request` returns before the Noise library is asked: the
    /// message does not fit a frame, the channel to the server is not in its
    /// transport phase, or the encoding with its tag does not fit a Noise
    /// message.
    pub open spec fn request_refusal(channels: ChannelsView, message: ServerMessageView) -> Option<
        ErrorView,
    > {
        if wire_server_message(message).len() > MAX_FRAME_LENGTH {
            Some(ErrorView::EncodeError)
        } else if channels.server != Some(Phase::Transport) {
            Some(ErrorView::NotTransportState)
        } else if wire_server_message(message).len() + TAGLEN > MAX_NOISE_MESSAGE {
            Some(ErrorView::ProtocolError(ProtocolFailure::Input))
        } else {
            None
        }
    }

    /// Encodes a control message and encrypts it on the channel to the
    /// server.
    ///
    /// No channel changes its phase.
    pub fn request(&self, channels: &mut Channels, message: ServerMessage) -> (r: Result<
        RequestMessage,
        ClientError,
    >)
        ensures
            final(channels)@ == old(channels)@,
            match Self::request_refusal(old(channels)@, message@) {
                Some(e) => r is Err && r->Err_0@ == e,
                None => match r {
                    Ok(request) => is_server_request(
                        request@,
                        wire_server_message(message@).len(),
                    ),
                    Err(e) => e@ is ProtocolError,
                },
            },
            step(old(channels)@, final(channels)@, None),
    {
        let payload = encode_server_message(&message)?;
        let envelope = channels.server.encrypt(payload.as_slice())?;
        Ok(RequestMessage::Opaque(OpaqueMessage::ServerMessage(envelope)))
    }

    /// Asks the server to create a session for the given participants.
    pub fn new_session(&self, channels: &mut Channels, participant_keys: Vec<Vec<u8>>) -> (r:
        Result<RequestMessage, ClientError>)
        ensures
            final(channels)@ == old(channels)@,
            match Self::request_refusal(
                old(channels)@,
                ServerMessageView::NewSession(keys_view(participant_keys@)),
            ) {
                Some(e) => r is Err && r->Err_0@ == e,
                None => match r {
                    Ok(request) => is_server_request(
                        request@,
                        wire_server_message(
                            ServerMessageView::NewSession(keys_view(participant_keys@)),
                        ).len(),
                    ),
                    Err(e) => e@ is ProtocolError,
                },
            },
            step(old(channels)@, final(channels)@, None),
    {
        let session = SessionRequest { participant_keys };
        self.request(channels, ServerMessage::NewSession(session))
    }

    /// Asks to be notified when all participants of a session have
    /// connected to the server.
    pub fn session_ready_notify(&self, channels: &mut Channels, session_id: &SessionId) -> (r:
        Result<RequestMessage, ClientError>)
        ensures
            final(channels)@ == old(channels)@,
            match Self::request_refusal(
                old(channels)@,
                ServerMessageView::SessionReadyNotify(*session_id),
            ) {
                Some(e) => r is Err && r->Err_0@ == e,
                None => match r {
                    Ok(request) => is_server_request(
                        request@,
                        wire_server_message(
                            ServerMessageView::SessionReadyNotify(*session_id),
                        ).len(),
                    ),
                    Err(e) => e@ is ProtocolError,
                },
            },
            step(old(channels)@, final(channels)@, None),
    {
        self.request(channels, ServerMessage::SessionReadyNotify(*session_id))
    }

    /// Asks to be notified when all participants of a session have
    /// connected to each other.
    pub fn session_active_notify(&self, channels: &mut Channels, session_id: &SessionId) -> (r:
        Result<RequestMessage, ClientError>)
        ensures
            final(channels)@ == old(channels)@,
            match Self::request_refusal(
                old(channels)@,
                ServerMessageView::SessionActiveNotify(*session_id),
            ) {
                Some(e) => r is Err && r->Err_0@ == e,
                None => match r {
                    Ok(request) => is_server_request(
                        request@,
                        wire_server_message(
                            ServerMessageView::SessionActiveNotify(*session_id),
                        ).len(),
                    ),
                    Err(e) => e@ is ProtocolError,
                },
            },
            step(old(channels)@, final(channels)@, None),
    {
        self.request(channels, ServerMessage::SessionActiveNotify(*session_id))
    }

    /// Tells the server that a connection to a peer of a session exists.
    pub fn register_session_connection(
        &self,
        channels: &mut Channels,
        session_id: &SessionId,
        peer_key: &[u8],
    ) -> (r: Result<RequestMessage, ClientError>)
        ensures
            final(channels)@ == old(channels)@,
            match Self::request_refusal(
                old(channels)@,
                ServerMessageView::SessionConnection {
                    session_id: *session_id,
                    peer_key: peer_key@,
                },
            ) {
                Some(e) => r is Err && r->Err_0@ == e,
                None => match r {
                    Ok(request) => is_server_request(
                        request@,
                        wire_server_message(
                            ServerMessageView::SessionConnection {
                                session_id: *session_id,
                                peer_key: peer_key@,
                            },
                        ).len(),
                    ),
                    Err(e) => e@ is ProtocolError,
                },
            },
            step(old(channels)@, final(channels)@, None),
    {
        let message = ServerMessage::SessionConnection {
            session_id: *session_id,
            peer_key: copy_bytes(peer_key),
        };
        self.request(channels, message)
    }

    /// Asks the server to close a session.
    pub fn close_session(&self, channels: &mut Channels, session_id: SessionId) -> (r: Result<
        RequestMessage,
        ClientError,
    >)
        ensures
            final(channels)@ == old(channels)@,
            match Self::request_refusal(
                old(channels)@,
                ServerMessageView::CloseSession(session_id),
            ) {
                Some(e) => r is Err && r->Err_0@ == e,
                None => match r {
                    Ok(request) => is_server_request(
                        request@,
                        wire_server_message(ServerMessageView::CloseSession(session_id)).len(),
                    ),
                    Err(e) => e@ is ProtocolError,
                },
            },
            step(old(channels)@, final(channels)@, None),
    {
        self.request(channels, ServerMessage::CloseSession(session_id))
    }

    /// Encrypts one payload for each recipient, in the order given, and
    /// stops at the first that fails.
    ///
    /// Returns the requests for the recipients before the failure, and the
    /// outcome. No channel changes its phase.
    pub fn relay_broadcast(
        &self,
        channels: &mut Channels,
        session_id: &SessionId,
        recipient_public_keys: &[Vec<u8>],
        payload: &[u8],
        encoding: Encoding,
    ) -> (r: (Vec<RequestMessage>, Result<(), ClientError>))
        ensures
            final(channels)@ == old(channels)@,
            broadcast_done(
                old(channels)@,
                *session_id,
                recipient_public_keys@,
                payload@,
                encoding,
                r.0@,
                r.1,
            ),
            step(old(channels)@, final(channels)@, None),
    {
        let mut requests: Vec<RequestMessage> = Vec::new();
        let mut i: usize = 0;
        while i < recipient_public_keys.len()
            invariant
                0 <= i <= recipient_public_keys@.len(),
                channels@ == old(channels)@,
                requests@.len() == i,
                forall|j: int|
                    0 <= j < i ==> {
                        &&& refusal(old(channels)@.peers, #[trigger] recipient_public_keys@[j]@)
                            is None
                        &&& is_peer_request(
                            requests@[j]@,
                            recipient_public_keys@[j]@,
                            Some(*session_id),
                            encoding,
                            true,
                            payload@.len(),
                        )
                    },
            decreases recipient_public_keys@.len() - i,
        {
            let key = recipient_public_keys[i].as_slice();
            match self.relay(channels, key, payload, encoding, true, Some(*session_id)) {
                Ok(request) => {
                    requests.push(request);
                },
                Err(e) => {
                    return (requests, Err(e));
                },
            }
            i += 1;
        }
        (requests, Ok(()))
    }

    /// Broadcasts the text of a JSON document in the context of a session.
    pub fn broadcast(
        &self,
        channels: &mut Channels,
        session_id: &SessionId,
        recipient_public_keys: &[Vec<u8>],
        payload: &[u8],
    ) -> (r: (Vec<RequestMessage>, Result<(), ClientError>))
        ensures
            final(channels)@ == old(channels)@,
            broadcast_done(
                old(channels)@,
                *session_id,
                recipient_public_keys@,
                payload@,
                Encoding::Json,
                r.0@,
                r.1,
            ),
            step(old(channels)@, final(channels)@, None),
    {
        self.relay_broadcast(channels, session_id, recipient_public_keys, payload, Encoding::Json)
    }

    /// Broadcasts a binary message in the context of a session.
    pub fn broadcast_blob(
        &self,
        channels: &mut Channels,
        session_id: &SessionId,
        recipient_public_keys: &[Vec<u8>],
        payload: &[u8],
    ) -> (r: (Vec<RequestMessage>, Result<(), ClientError>))
        ensures
            final(channels)@ == old(channels)@,
            broadcast_done(
                old(channels)@,
                *session_id,
                recipient_public_keys@,
                payload@,
                Encoding::Blob,
                r.0@,
                r.1,
            ),
            step(old(channels)@, final(channels)@, None),
    {
        self.relay_broadcast(channels, session_id, recipient_public_keys, payload, Encoding::Blob)
    }
}

} // verus!
