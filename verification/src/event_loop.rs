//! The decisions of the event loop: what to do with each item of its three
//! sources, and which event a decoded message gives.
//!
//! The loop itself waits on the transport and on the queues; whoever runs
//! it hands each item to [`EventLoop::run`] and carries out what comes
//! back.

use vstd::prelude::*;
use crate::bytes::copy_bytes;
use crate::channel::Phase;
use crate::client::{lemma_channels_view, Channels, ClientOptions};
use crate::codec::{decode_response, decode_server_message, encode_request};
use crate::error::{ClientError, ErrorView, ProtocolFailure};
use crate::event::{Event, EventView, JsonMessage};
use crate::handshake::handshake_request;
use crate::peers::{completion_refusal, refusal, responded};
use crate::protocol::{
    Encoding, EnvelopeView, HandshakeMessage, HandshakeView, MessageView, OpaqueMessage,
    OpaqueView, RequestMessage, ResponseMessage, SealedEnvelope, ServerMessage,
    ServerMessageView, SessionId, TransparentMessage, TransparentView, MAX_FRAME_LENGTH,
    MAX_NOISE_MESSAGE, TAGLEN,
};
use crate::trace::{step, ChannelsView};
use crate::wire::{
    decoded_message, decoded_server_message, law_server_message_round_trip, wire_message,
    wire_server_message,
};

verus! {

broadcast use lemma_channels_view;

/// The event loop of a client.
pub struct EventLoop {
    options: ClientOptions,
}

/// A frame read from the transport.
#[derive(Debug, Clone, PartialEq, Eq)]
pub enum Frame {
    /// A binary frame with its payload.
    Binary(Vec<u8>),
    /// A text or control frame.
    Other,
}

/// An item of one of the three sources that the loop waits on.
#[derive(Debug, Clone, PartialEq, Eq)]
pub enum Source {
    /// A frame read from the transport.
    Transport(Frame),
    /// A request taken from the outbound queue.
    Outbound(RequestMessage),
    /// A response taken from the queue of decoded messages.
    Decoded(ResponseMessage),
    /// The transport failed to read or to write a frame; carries its report.
    Failed(String),
    /// The transport was closed.
    Closed,
}

/// What the loop is to do after one item.
#[derive(Debug, Clone, PartialEq, Eq)]
pub struct Turn {
    /// A response to put on the queue of decoded messages.
    pub decoded: Option<ResponseMessage>,
    /// A frame to write to the transport, followed by a flush.
    pub frame: Option<Vec<u8>>,
    /// A request to put on the outbound queue.
    pub outbound: Option<RequestMessage>,
    /// An item to yield on the stream of events.
    pub item: Option<Result<Event, ClientError>>,
    /// Whether the stream ends after this turn.
    pub stop: bool,
}

/// What a decoded message gave: at most one event, and at most one request
/// to put on the outbound queue.
#[derive(Debug, Clone, PartialEq, Eq)]
pub struct Dispatched {
    pub event: Option<Event>,
    pub reply: Option<RequestMessage>,
}

/// The value of the outcome of an operation that yields one event.
pub open spec fn outcome_view(r: Result<Event, ClientError>) -> Result<EventView, ErrorView> {
    match r {
        Ok(event) => Ok(event@),
        Err(e) => Err(e@),
    }
}

/// The value of the outcome of an operation that yields at most one event.
pub open spec fn optional_outcome_view(r: Result<Option<Event>, ClientError>) -> Result<
    Option<EventView>,
    ErrorView,
> {
    match r {
        Ok(Some(event)) => Ok(Some(event@)),
        Ok(None) => Ok(None),
        Err(e) => Err(e@),
    }
}

/// The event of an outcome, if it has one.
pub open spec fn yielded(r: Result<EventView, ErrorView>) -> Option<EventView> {
    match r {
        Ok(event) => Some(event),
        Err(_) => None,
    }
}

/// The event of an outcome that may have none.
pub open spec fn optionally_yielded(r: Result<Option<EventView>, ErrorView>) -> Option<EventView> {
    match r {
        Ok(event) => event,
        Err(_) => None,
    }
}

/// What a message of the server channel gives: an error of the server is
/// surfaced, the four session notices become events, and every other
/// message is consumed in silence.
pub open spec fn server_dispatch(message: ServerMessageView) -> Result<
    Option<EventView>,
    ErrorView,
> {
    match message {
        ServerMessageView::Error(code, text) => Err(ErrorView::ServerError(code, text)),
        ServerMessageView::SessionCreated(state) => Ok(Some(EventView::SessionCreated(state))),
        ServerMessageView::SessionReady(state) => Ok(Some(EventView::SessionReady(state))),
        ServerMessageView::SessionActive(state) => Ok(Some(EventView::SessionActive(state))),
        ServerMessageView::SessionFinished(id) => Ok(Some(EventView::SessionFinished(id))),
        _ => Ok(None),
    }
}

/// What the plaintext of an envelope of the server gives: it must be
/// marked as a blob and hold a message of the server channel.
pub open spec fn server_plaintext_dispatch(encoding: Encoding, plaintext: Seq<u8>) -> Result<
    Option<EventView>,
    ErrorView,
> {
    if encoding != Encoding::Blob {
        Err(ErrorView::ProtocolError(ProtocolFailure::UnexpectedEncoding))
    } else {
        match decoded_server_message(plaintext) {
            Some(message) => server_dispatch(message),
            None => Err(ErrorView::DecodeError),
        }
    }
}

/// What the plaintext of an envelope of a peer gives: a binary or a JSON
/// message, as the envelope says; an envelope without encoding is refused.
pub open spec fn relayed(
    peer_key: Seq<u8>,
    encoding: Encoding,
    plaintext: Seq<u8>,
    session_id: Option<SessionId>,
) -> Result<EventView, ErrorView> {
    match encoding {
        Encoding::Noop => Err(ErrorView::ProtocolError(ProtocolFailure::UnexpectedEncoding)),
        Encoding::Blob => Ok(EventView::BinaryMessage { peer_key, message: plaintext, session_id }),
        Encoding::Json => Ok(EventView::JsonMessage { peer_key, contents: plaintext, session_id }),
    }
}

/// What completing the handshake with the server does.
///
/// No peer is touched. Unless the channel is in its handshake phase, nothing
/// changes and the outcome is `NotHandshakeState`. A length beyond the
/// buffer changes nothing either, and is invalid input. Otherwise a success
/// leaves the channel in its transport phase and yields `ServerConnected`
/// with the configured key; a failure is a protocol error, and the
/// handshake is still open or its state is lost.
pub open spec fn server_handshake_done(
    server_key: Seq<u8>,
    len: usize,
    buf_len: nat,
    pre: ChannelsView,
    post: ChannelsView,
    r: Result<EventView, ErrorView>,
) -> bool {
    &&& post.peers == pre.peers
    &&& if pre.server != Some(Phase::Handshake) {
        post == pre && r == Err::<EventView, ErrorView>(ErrorView::NotHandshakeState)
    } else if len > buf_len {
        post == pre && r == Err::<EventView, ErrorView>(
            ErrorView::ProtocolError(ProtocolFailure::Input),
        )
    } else {
        match r {
            Ok(event) => post.server == Some(Phase::Transport) && event
                == (EventView::ServerConnected { server_key }),
            Err(e) => e is ProtocolError && (post.server == Some(Phase::Handshake) || post.server
                is None),
        }
    }
}

/// What answering the handshake of a peer does.
///
/// The channel to the server is not touched, and the registry changes as
/// [`responded`] says: a success is had only for a peer without a channel,
/// with keys of the pattern's length and a length within the buffer. The
/// event is then `PeerConnected`, and the reply is the request that carries
/// the responder's message to that peer. A failure changes nothing; it is
/// `PeerAlreadyExistsMaybeRace` where the peer has a channel, invalid input
/// for keys of another length or a length beyond the buffer, and a protocol
/// error otherwise.
pub open spec fn responder_done(
    local_private: Seq<u8>,
    peer_key: Seq<u8>,
    len: usize,
    buf_len: nat,
    pre: ChannelsView,
    post: ChannelsView,
    r: Result<(EventView, MessageView), ErrorView>,
) -> bool {
    &&& post.server == pre.server
    &&& match r {
        Ok((event, reply)) => match reply {
            MessageView::Transparent(TransparentView::PeerHandshake { public_key, message }) => {
                &&& public_key == peer_key
                &&& event == (EventView::PeerConnected { peer_key })
                &&& responded(
                    pre.peers,
                    post.peers,
                    local_private,
                    peer_key,
                    len,
                    buf_len,
                    Ok(message),
                )
            },
            _ => false,
        },
        Err(e) => responded(pre.peers, post.peers, local_private, peer_key, len, buf_len, Err(e)),
    }
}

/// What completing the handshake with a peer does.
///
/// The channel to the server is not touched. Where the peer has no channel
/// or one in its transport phase, nothing changes and the outcome is the
/// refusal. A length beyond the buffer changes nothing either, and is
/// invalid input. Otherwise a success leaves the channel in its transport phase
/// and yields `PeerConnected`; a failure is a protocol error, and the
/// handshake is still open or the entry is lost.
pub open spec fn ack_done(
    peer_key: Seq<u8>,
    len: usize,
    buf_len: nat,
    pre: ChannelsView,
    post: ChannelsView,
    r: Result<EventView, ErrorView>,
) -> bool {
    &&& post.server == pre.server
    &&& match completion_refusal(pre.peers, peer_key) {
        Some(refused) => post == pre && r == Err::<EventView, ErrorView>(refused),
        None => if len > buf_len {
            post == pre && r == Err::<EventView, ErrorView>(
                ErrorView::ProtocolError(ProtocolFailure::Input),
            )
        } else {
            match r {
                Ok(event) => post.peers == pre.peers.insert(peer_key, Phase::Transport) && event
                    == (EventView::PeerConnected { peer_key }),
                Err(e) => e is ProtocolError && (post.peers == pre.peers || post.peers
                    == pre.peers.remove(peer_key)),
            }
        },
    }
}

/// What a message of a peer does.
///
/// No channel changes its phase. Where the peer has no channel in its
/// transport phase, the outcome is the refusal. An envelope whose length
/// lies beyond its payload is invalid input, and one whose length is no
/// length of a Noise ciphertext is a protocol error. Otherwise the outcome
/// is a protocol error of the Noise library, or what [`relayed`] gives for
/// a plaintext that is one tag shorter than the envelope says.
pub open spec fn relayed_done(
    peer_key: Seq<u8>,
    envelope: EnvelopeView,
    session_id: Option<SessionId>,
    pre: ChannelsView,
    post: ChannelsView,
    r: Result<EventView, ErrorView>,
) -> bool {
    &&& post == pre
    &&& match refusal(pre.peers, peer_key) {
        Some(refused) => r == Err::<EventView, ErrorView>(refused),
        None => if envelope.length > envelope.payload.len() {
            r == Err::<EventView, ErrorView>(ErrorView::ProtocolError(ProtocolFailure::Input))
        } else if bad_noise_length(envelope.length) {
            r is Err && r->Err_0 is ProtocolError
        } else {
            (r is Err && r->Err_0 is ProtocolError) || exists|plaintext: Seq<u8>|
                plaintext.len() + TAGLEN == envelope.length && r == #[trigger] relayed(
                    peer_key,
                    envelope.encoding,
                    plaintext,
                    session_id,
                )
        },
    }
}

/// What a message of the server does.
///
/// No channel changes its phase. Unless the channel to the server is in its
/// transport phase, the outcome is `NotTransportState`. An envelope whose
/// length lies beyond its payload is invalid input, and one whose length is
/// no length of a Noise ciphertext is a protocol error. Otherwise the
/// outcome is a protocol error of the Noise library, or what
/// [`server_plaintext_dispatch`] gives for a plaintext that is one tag
/// shorter than the envelope says.
pub open spec fn server_message_done(
    envelope: EnvelopeView,
    pre: ChannelsView,
    post: ChannelsView,
    r: Result<Option<EventView>, ErrorView>,
) -> bool {
    &&& post == pre
    &&& if pre.server != Some(Phase::Transport) {
        r == Err::<Option<EventView>, ErrorView>(ErrorView::NotTransportState)
    } else if envelope.length > envelope.payload.len() {
        r == Err::<Option<EventView>, ErrorView>(ErrorView::ProtocolError(ProtocolFailure::Input))
    } else if bad_noise_length(envelope.length) {
        r is Err && r->Err_0 is ProtocolError
    } else {
        (r is Err && r->Err_0 is ProtocolError) || exists|plaintext: Seq<u8>|
            plaintext.len() + TAGLEN == envelope.length && r == #[trigger] server_plaintext_dispatch(
                envelope.encoding,
                plaintext,
            )
    }
}

/// Whether a length is none that a Noise ciphertext can have: shorter than
/// a tag, or longer than the largest Noise message.
pub open spec fn bad_noise_length(length: u32) -> bool {
    length < TAGLEN || length > MAX_NOISE_MESSAGE
}

/// A message of the server channel, encoded and marked as a blob, is
/// dispatched as the table of [`server_dispatch`] says.
pub proof fn law_encoded_server_message_is_dispatched(message: ServerMessageView)
    requires
        wire_server_message(message).len() <= MAX_FRAME_LENGTH,
    ensures
        server_plaintext_dispatch(Encoding::Blob, wire_server_message(message)) == server_dispatch(
            message,
        ),
{
    law_server_message_round_trip(message);
}

/// The value of what a decoded message gave.
pub open spec fn dispatched_view(r: Result<Dispatched, ClientError>) -> Result<
    (Option<EventView>, Option<MessageView>),
    ErrorView,
> {
    match r {
        Ok(done) => Ok(
            (
                match done.event {
                    Some(event) => Some(event@),
                    None => None,
                },
                match done.reply {
                    Some(reply) => Some(reply@),
                    None => None,
                },
            ),
        ),
        Err(e) => Err(e@),
    }
}

/// The event that a decoded message gave, if any.
pub open spec fn dispatched_event(
    r: Result<(Option<EventView>, Option<MessageView>), ErrorView>,
) -> Option<EventView> {
    match r {
        Ok((event, _)) => event,
        Err(_) => None,
    }
}

/// What dispatching a decoded message does, for each message.
///
/// The reply of the server to the handshake completes it. The first
/// handshake message of a peer is answered, and the answer is the reply to
/// be sent; the answer of a peer completes the handshake that this client
/// opened. An encrypted message of a peer or of the server is decrypted and
/// turned into its event. The first handshake message of a server is no
/// message for a client, and is refused.
pub open spec fn dispatch_done(
    options: ClientOptions,
    incoming: MessageView,
    pre: ChannelsView,
    post: ChannelsView,
    r: Result<(Option<EventView>, Option<MessageView>), ErrorView>,
) -> bool {
    let one_event: Result<EventView, ErrorView> = match r {
        Ok((event, _)) => Ok(event->Some_0),
        Err(e) => Err(e),
    };
    let has_event_only = r is Ok ==> r->Ok_0.0 is Some && r->Ok_0.1 is None;
    match incoming {
        MessageView::Transparent(
            TransparentView::ServerHandshake(HandshakeView::Responder(len, buf)),
        ) => has_event_only && server_handshake_done(
            options.server_public_key@,
            len,
            buf.len(),
            pre,
            post,
            one_event,
        ),
        MessageView::Transparent(
            TransparentView::ServerHandshake(HandshakeView::Initiator(len, buf)),
        ) => post == pre && r == Err::<(Option<EventView>, Option<MessageView>), ErrorView>(
            ErrorView::ProtocolError(ProtocolFailure::UnexpectedMessage),
        ),
        MessageView::Transparent(
            TransparentView::PeerHandshake {
                public_key,
                message: HandshakeView::Initiator(len, buf),
            },
        ) => (r is Ok ==> r->Ok_0.0 is Some && r->Ok_0.1 is Some) && responder_done(
            options.keypair.private@,
            public_key,
            len,
            buf.len(),
            pre,
            post,
            match r {
                Ok((event, reply)) => Ok((event->Some_0, reply->Some_0)),
                Err(e) => Err(e),
            },
        ),
        MessageView::Transparent(
            TransparentView::PeerHandshake {
                public_key,
                message: HandshakeView::Responder(len, buf),
            },
        ) => has_event_only && ack_done(public_key, len, buf.len(), pre, post, one_event),
        MessageView::Opaque(OpaqueView::PeerMessage { public_key, session_id, envelope }) => {
            has_event_only && relayed_done(public_key, envelope, session_id, pre, post, one_event)
        },
        MessageView::Opaque(OpaqueView::ServerMessage(envelope)) => (r is Ok ==> r->Ok_0.1
            is None) && server_message_done(
            envelope,
            pre,
            post,
            match r {
                Ok((event, _)) => Ok(event),
                Err(e) => Err(e),
            },
        ),
    }
}

/// Mathematical value of a [`Turn`].
pub struct TurnView {
    pub decoded: Option<MessageView>,
    pub frame: Option<Seq<u8>>,
    pub outbound: Option<MessageView>,
    pub item: Option<Result<EventView, ErrorView>>,
    pub stop: bool,
}

impl View for Turn {
    type V = TurnView;

    open spec fn view(&self) -> TurnView {
        TurnView {
            decoded: match self.decoded {
                Some(message) => Some(message@),
                None => None,
            },
            frame: match self.frame {
                Some(frame) => Some(frame@),
                None => None,
            },
            outbound: match self.outbound {
                Some(message) => Some(message@),
                None => None,
            },
            item: match self.item {
                Some(item) => Some(outcome_view(item)),
                None => None,
            },
            stop: self.stop,
        }
    }
}

/// The turn in which nothing is to be done, and after which the loop goes
/// on.
pub open spec fn idle() -> TurnView {
    TurnView { decoded: None, frame: None, outbound: None, item: None, stop: false }
}

/// The turn after the transport failed: the failure is yielded, and the
/// loop goes on.
pub open spec fn failed_turn(report: Seq<char>) -> TurnView {
    TurnView { item: Some(Err(ErrorView::TransportError(report))), ..idle() }
}

/// The turn after the transport was closed: the stream ends.
pub open spec fn closed_turn() -> TurnView {
    TurnView { stop: true, ..idle() }
}

/// The turn after a frame was read from the transport: a binary frame that
/// holds a message puts it on the queue of decoded messages, one that holds
/// none yields a decode error, and any other frame is ignored.
pub open spec fn frame_turn(frame: Option<Seq<u8>>) -> TurnView {
    match frame {
        None => idle(),
        Some(bytes) => match decoded_message(bytes) {
            Some(message) => TurnView { decoded: Some(message), ..idle() },
            None => TurnView { item: Some(Err(ErrorView::DecodeError)), ..idle() },
        },
    }
}

/// The turn after a request was taken from the outbound queue: its
/// encoding is written as a frame, or an encode error is yielded where it
/// does not fit one.
pub open spec fn outbound_turn(request: MessageView) -> TurnView {
    if wire_message(request).len() <= MAX_FRAME_LENGTH {
        TurnView { frame: Some(wire_message(request)), ..idle() }
    } else {
        TurnView { item: Some(Err(ErrorView::EncodeError)), ..idle() }
    }
}

/// The turn after a decoded message was dispatched: the event or the error
/// is yielded, and the reply, if any, is put on the outbound queue.
pub open spec fn dispatch_turn(
    r: Result<(Option<EventView>, Option<MessageView>), ErrorView>,
) -> TurnView {
    match r {
        Ok((event, reply)) => TurnView {
            outbound: reply,
            item: match event {
                Some(event) => Some(Ok(event)),
                None => None,
            },
            ..idle()
        },
        Err(e) => TurnView { item: Some(Err(e)), ..idle() },
    }
}

/// The event that a turn yields, if any.
pub open spec fn turn_event(turn: TurnView) -> Option<EventView> {
    match turn.item {
        Some(Ok(event)) => Some(event),
        _ => None,
    }
}

/// What one turn of the loop does, for each source.
///
/// Only a closed transport ends the stream; every error is yielded as an
/// item, and the loop goes on.
pub open spec fn turn_done(
    options: ClientOptions,
    source: Source,
    pre: ChannelsView,
    post: ChannelsView,
    turn: TurnView,
) -> bool {
    match source {
        Source::Transport(Frame::Other) => post == pre && turn == frame_turn(None),
        Source::Transport(Frame::Binary(bytes)) => post == pre && turn == frame_turn(Some(bytes@)),
        Source::Outbound(request) => post == pre && turn == outbound_turn(request@),
        Source::Decoded(response) => exists|
            r: Result<(Option<EventView>, Option<MessageView>), ErrorView>,
        |
            dispatch_done(options, response@, pre, post, r) && turn == #[trigger] dispatch_turn(r),
        Source::Failed(report) => post == pre && turn == failed_turn(report@),
        Source::Closed => post == pre && turn == closed_turn(),
    }
}

impl EventLoop {
    /// The options that the event loop was made with.
    pub closed spec fn options(&self) -> ClientOptions {
        self.options
    }

    /// An event loop for a client with the given options.
    pub fn new(options: ClientOptions) -> (r: EventLoop)
        ensures
            r.options() == options,
    {
        EventLoop { options }
    }

    /// Turns an inner message of the server into an event, an error, or
    /// nothing.
    pub fn handle_server_channel_message(&self, message: ServerMessage) -> (r: Result<
        Option<Event>,
        ClientError,
    >)
        ensures
            optional_outcome_view(r) == server_dispatch(message@),
    {
        match message {
            ServerMessage::Error(code, text) => Err(ClientError::ServerError(code, text)),
            ServerMessage::SessionCreated(response) => Ok(Some(Event::SessionCreated(response))),
            ServerMessage::SessionReady(response) => Ok(Some(Event::SessionReady(response))),
            ServerMessage::SessionActive(response) => Ok(Some(Event::SessionActive(response))),
            ServerMessage::SessionFinished(session_id) => Ok(
                Some(Event::SessionFinished(session_id)),
            ),
            _ => Ok(None),
        }
    }

    /// Reads the plaintext of an envelope of the server and dispatches the
    /// message that it holds.
    pub fn server_event(&self, encoding: Encoding, plaintext: &[u8]) -> (r: Result<
        Option<Event>,
        ClientError,
    >)
        ensures
            optional_outcome_view(r) == server_plaintext_dispatch(encoding, plaintext@),
    {
        match encoding {
            Encoding::Blob => {
                let message = decode_server_message(plaintext)?;
                self.handle_server_channel_message(message)
            },
            _ => Err(ClientError::ProtocolError(ProtocolFailure::UnexpectedEncoding)),
        }
    }

    /// Makes the event for the plaintext of an envelope of a peer.
    pub fn relayed_event(
        &self,
        peer_key: &[u8],
        encoding: Encoding,
        plaintext: Vec<u8>,
        session_id: Option<SessionId>,
    ) -> (r: Result<Event, ClientError>)
        ensures
            outcome_view(r) == relayed(peer_key@, encoding, plaintext@, session_id),
    {
        match encoding {
            Encoding::Noop => Err(ClientError::ProtocolError(ProtocolFailure::UnexpectedEncoding)),
            Encoding::Blob => Ok(
                Event::BinaryMessage {
                    peer_key: copy_bytes(peer_key),
                    message: plaintext,
                    session_id,
                },
            ),
            Encoding::Json => Ok(
                Event::JsonMessage {
                    peer_key: copy_bytes(peer_key),
                    message: JsonMessage { contents: plaintext },
                    session_id,
                },
            ),
        }
    }

    /// Completes the handshake with the server, with its reply.
    ///
    /// Fails with `NotHandshakeState` unless the channel to the server is in
    /// its handshake phase. On success the channel is in its transport
    /// phase, and the event names the key that the client was configured
    /// with.
    pub fn server_handshake(&self, channels: &mut Channels, len: usize, buf: &[u8]) -> (r: Result<
        Event,
        ClientError,
    >)
        ensures
            server_handshake_done(
                self.options().server_public_key@,
                len,
                buf@.len(),
                old(channels)@,
                final(channels)@,
                outcome_view(r),
            ),
            step(old(channels)@, final(channels)@, yielded(outcome_view(r))),
    {
        channels.server.complete(len, buf)?;
        Ok(Event::ServerConnected { server_key: copy_bytes(self.options.server_public_key.as_slice()) })
    }

    /// Answers the handshake that a peer opened.
    ///
    /// Fails with `PeerAlreadyExistsMaybeRace` where the peer has a channel,
    /// and with invalid input for keys of another length than the pattern's
    /// or a length beyond the buffer; every failure leaves the channels as
    /// they were. On success the peer has a channel in its transport phase,
    /// and the reply is to be sent.
    pub fn peer_handshake_responder(
        &self,
        channels: &mut Channels,
        public_key: &[u8],
        len: usize,
        buf: &[u8],
    ) -> (r: Result<(Event, RequestMessage), ClientError>)
        ensures
            responder_done(
                self.options().keypair.private@,
                public_key@,
                len,
                buf@.len(),
                old(channels)@,
                final(channels)@,
                match r {
                    Ok((event, reply)) => Ok((event@, reply@)),
                    Err(e) => Err(e@),
                },
            ),
            step(
                old(channels)@,
                final(channels)@,
                match r {
                    Ok((event, _)) => Some(event@),
                    Err(_) => None,
                },
            ),
    {
        let message = channels.peers.begin_responder(
            self.options.keypair.private.as_slice(),
            public_key,
            len,
            buf,
        )?;
        let reply = handshake_request(Some(public_key), message);
        Ok((Event::PeerConnected { peer_key: copy_bytes(public_key) }, reply))
    }

    /// Completes the handshake that this client opened towards a peer.
    ///
    /// Fails with `PeerNotFound` where the peer has no channel and with
    /// `NotHandshakeState` where its channel is in the transport phase; both
    /// leave the channels as they were.
    pub fn peer_handshake_ack(
        &self,
        channels: &mut Channels,
        public_key: &[u8],
        len: usize,
        buf: &[u8],
    ) -> (r: Result<Event, ClientError>)
        ensures
            ack_done(
                public_key@,
                len,
                buf@.len(),
                old(channels)@,
                final(channels)@,
                outcome_view(r),
            ),
            step(old(channels)@, final(channels)@, yielded(outcome_view(r))),
    {
        channels.peers.complete_initiator(public_key, len, buf)?;
        Ok(Event::PeerConnected { peer_key: copy_bytes(public_key) })
    }

    /// Decrypts a message that a peer sent and makes its event.
    ///
    /// Fails with `PeerNotFound` where the peer has no channel and with
    /// `NotTransportState` where its handshake is open. No channel changes
    /// its phase.
    pub fn handle_relayed_message(
        &self,
        channels: &mut Channels,
        public_key: &[u8],
        envelope: SealedEnvelope,
        session_id: Option<SessionId>,
    ) -> (r: Result<Event, ClientError>)
        ensures
            relayed_done(
                public_key@,
                envelope@,
                session_id,
                old(channels)@,
                final(channels)@,
                outcome_view(r),
            ),
            step(old(channels)@, final(channels)@, yielded(outcome_view(r))),
    {
        let contents = channels.peers.decrypt(public_key, &envelope)?;
        let ghost plaintext = contents@;
        let r = self.relayed_event(public_key, envelope.encoding, contents, session_id);
        assert(outcome_view(r) == relayed(public_key@, envelope@.encoding, plaintext, session_id));
        r
    }

    /// Decrypts a message that the server sent and dispatches it.
    ///
    /// Fails with `NotTransportState` unless the channel to the server is in
    /// its transport phase. No channel changes its phase.
    pub fn handle_server_message(&self, channels: &mut Channels, envelope: SealedEnvelope) -> (r:
        Result<Option<Event>, ClientError>)
        ensures
            server_message_done(
                envelope@,
                old(channels)@,
                final(channels)@,
                optional_outcome_view(r),
            ),
            step(old(channels)@, final(channels)@, optionally_yielded(optional_outcome_view(r))),
    {
        let (encoding, contents) = channels.server.decrypt(&envelope)?;
        let r = self.server_event(encoding, contents.as_slice());
        assert(optional_outcome_view(r) == server_plaintext_dispatch(envelope@.encoding, contents@));
        r
    }

    /// Dispatches a decoded message: advances the handshake that it belongs
    /// to, or decrypts it and makes its event.
    pub fn handle_incoming_message(&self, channels: &mut Channels, incoming: ResponseMessage) -> (r:
        Result<Dispatched, ClientError>)
        ensures
            dispatch_done(
                self.options(),
                incoming@,
                old(channels)@,
                final(channels)@,
                dispatched_view(r),
            ),
            step(old(channels)@, final(channels)@, dispatched_event(dispatched_view(r))),
    {
        match incoming {
            ResponseMessage::Transparent(
                TransparentMessage::ServerHandshake(HandshakeMessage::Responder(len, buf)),
            ) => {
                let event = self.server_handshake(channels, len, buf.as_slice())?;
                Ok(Dispatched { event: Some(event), reply: None })
            },
            ResponseMessage::Transparent(
                TransparentMessage::PeerHandshake {
                    message: HandshakeMessage::Initiator(len, buf),
                    public_key,
                },
            ) => {
                let (event, reply) = self.peer_handshake_responder(
                    channels,
                    public_key.as_slice(),
                    len,
                    buf.as_slice(),
                )?;
                Ok(Dispatched { event: Some(event), reply: Some(reply) })
            },
            ResponseMessage::Transparent(
                TransparentMessage::PeerHandshake {
                    message: HandshakeMessage::Responder(len, buf),
                    public_key,
                },
            ) => {
                let event = self.peer_handshake_ack(
                    channels,
                    public_key.as_slice(),
                    len,
                    buf.as_slice(),
                )?;
                Ok(Dispatched { event: Some(event), reply: None })
            },
            ResponseMessage::Opaque(OpaqueMessage::PeerMessage { public_key, envelope, session_id }) => {
                let event = self.handle_relayed_message(
                    channels,
                    public_key.as_slice(),
                    envelope,
                    session_id,
                )?;
                Ok(Dispatched { event: Some(event), reply: None })
            },
            ResponseMessage::Opaque(OpaqueMessage::ServerMessage(envelope)) => {
                let event = self.handle_server_message(channels, envelope)?;
                Ok(Dispatched { event, reply: None })
            },
            ResponseMessage::Transparent(
                TransparentMessage::ServerHandshake(HandshakeMessage::Initiator(_, _)),
            ) => Err(ClientError::ProtocolError(ProtocolFailure::UnexpectedMessage)),
        }
    }

    /// Takes one item of one source of the loop, and says what is to be
    /// done with it.
    ///
    /// An error never ends the loop: it is yielded as an item, and the
    /// channels that it does not concern stay as they were. Only a closed
    /// transport ends the stream.
    pub fn run(&self, channels: &mut Channels, source: Source) -> (turn: Turn)
        ensures
            turn_done(
                self.options(),
                source,
                old(channels)@,
                final(channels)@,
                turn@,
            ),
            step(old(channels)@, final(channels)@, turn_event(turn@)),
    {
        match source {
            Source::Transport(Frame::Other) => Turn {
                decoded: None,
                frame: None,
                outbound: None,
                item: None,
                stop: false,
            },
            Source::Failed(report) => Turn {
                decoded: None,
                frame: None,
                outbound: None,
                item: Some(Err(ClientError::TransportError(report))),
                stop: false,
            },
            Source::Closed => Turn {
                decoded: None,
                frame: None,
                outbound: None,
                item: None,
                stop: true,
            },
            Source::Transport(Frame::Binary(buffer)) => {
                match decode_response(buffer.as_slice()) {
                    Ok(response) => Turn {
                        decoded: Some(response),
                        frame: None,
                        outbound: None,
                        item: None,
                        stop: false,
                    },
                    Err(e) => Turn {
                        decoded: None,
                        frame: None,
                        outbound: None,
                        item: Some(Err(e)),
                        stop: false,
                    },
                }
            },
            Source::Outbound(request) => {
                match encode_request(&request) {
                    Ok(frame) => Turn {
                        decoded: None,
                        frame: Some(frame),
                        outbound: None,
                        item: None,
                        stop: false,
                    },
                    Err(e) => Turn {
                        decoded: None,
                        frame: None,
                        outbound: None,
                        item: Some(Err(e)),
                        stop: false,
                    },
                }
            },
            Source::Decoded(response) => {
                let r = self.handle_incoming_message(channels, response);
                let ghost done = dispatched_view(r);
                let turn = match r {
                    Ok(Dispatched { event: Some(event), reply }) => Turn {
                        decoded: None,
                        frame: None,
                        outbound: reply,
                        item: Some(Ok(event)),
                        stop: false,
                    },
                    Ok(Dispatched { event: None, reply }) => Turn {
                        decoded: None,
                        frame: None,
                        outbound: reply,
                        item: None,
                        stop: false,
                    },
                    Err(e) => Turn {
                        decoded: None,
                        frame: None,
                        outbound: None,
                        item: Some(Err(e)),
                        stop: false,
                    },
                };
                assert(turn@ == dispatch_turn(done));
                turn
            },
        }
    }
}

} // verus!
