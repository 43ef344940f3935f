//! Core of a relay client: Noise-secured channels to a relay server and to
//! peers, the wire encoding of the framed messages, and the dispatch rules
//! that turn inbound messages into events.
//!
//! The crate does no I/O. The facade ([`NativeClient`]) returns the requests
//! that are to be sent, and the event loop ([`EventLoop`]) says for each
//! item that arrives what is to be done with it; both work on the same
//! [`Channels`].

pub mod address;
pub mod bytes;
pub mod channel;
pub mod client;
pub mod codec;
pub mod error;
pub mod event;
pub mod event_loop;
pub mod handshake;
pub mod hex;
pub mod noise;
pub mod peers;
pub mod protocol;
pub mod server;
pub mod trace;
pub mod wire;

pub use address::address;
pub use channel::{
    decrypt_peer_channel, decrypt_server_channel, encrypt_peer_channel, encrypt_server_channel,
    Phase, ProtocolState,
};
pub use client::{Channels, ClientOptions, Keypair, NativeClient, SWITCHING_PROTOCOLS};
pub use codec::{
    decode_request, decode_response, decode_server_message, encode_request, encode_response,
    encode_server_message,
};
pub use error::{ClientError, ProtocolFailure};
pub use handshake::{handshake_message, handshake_request};
pub use event::{Event, JsonMessage};
pub use event_loop::{Dispatched, EventLoop, Frame, Source, Turn};
pub use peers::Peers;
pub use protocol::{
    Encoding, HandshakeMessage, OpaqueMessage, RequestMessage, ResponseMessage, SealedEnvelope,
    ServerMessage, SessionId, SessionRequest, SessionState, TransparentMessage,
    HANDSHAKE_BUFFER, KEY_LENGTH, MAX_FRAME_LENGTH, MAX_NOISE_MESSAGE, PATTERN, TAGLEN,
};
pub use server::ServerChannel;
