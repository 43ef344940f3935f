//! Setting up and advancing the handshake of a channel.

use vstd::prelude::*;
use vstd::slice::slice_subrange;
use crate::bytes::{copy_bytes, zeroed};
use crate::error::{ClientError, ErrorView, ProtocolFailure};
use crate::noise::{
    build_initiator, build_responder, classify, handshake_read, handshake_write,
    initiator_builds, into_transport_mode, responder_builds,
};
use crate::protocol::{
    HandshakeMessage, HandshakeView, MessageView, RequestMessage, TransparentMessage,
    TransparentView, HANDSHAKE_BUFFER, KEY_LENGTH, PATTERN, TAGLEN,
};

verus! {

/// Whether both keys have the length that the pattern asks for.
pub open spec fn keys_fit(local_private: Seq<u8>, remote_public: Seq<u8>) -> bool {
    local_private.len() == KEY_LENGTH && remote_public.len() == KEY_LENGTH
}

/// Whether the Noise library builds the state of one side of a handshake of
/// this crate's pattern for a pair of keys.
pub open spec fn noise_builds(
    local_private: Seq<u8>,
    remote_public: Seq<u8>,
    initiator: bool,
) -> bool {
    if initiator {
        initiator_builds(PATTERN@, local_private, remote_public)
    } else {
        responder_builds(PATTERN@, local_private, remote_public)
    }
}

/// Builds the Noise state of the side that opens (`initiator`) or answers a
/// handshake.
///
/// Keys of another length than the pattern's are refused as invalid input
/// before the Noise library sees them. For keys of that length the state is
/// built exactly when the Noise library builds it; its failure is a protocol
/// error.
pub fn begin(local_private: &[u8], remote_public: &[u8], initiator: bool) -> (r: Result<
    Box<snow::HandshakeState>,
    ClientError,
>)
    ensures
        !keys_fit(local_private@, remote_public@) ==> r is Err && r->Err_0@
            == ErrorView::ProtocolError(ProtocolFailure::Input),
        keys_fit(local_private@, remote_public@) ==> (r is Ok <==> noise_builds(
            local_private@,
            remote_public@,
            initiator,
        )),
        r is Err ==> r->Err_0@ is ProtocolError,
{
    if local_private.len() != KEY_LENGTH || remote_public.len() != KEY_LENGTH {
        return Err(ClientError::ProtocolError(ProtocolFailure::Input));
    }
    let built = if initiator {
        build_initiator(PATTERN, local_private, remote_public)
    } else {
        build_responder(PATTERN, local_private, remote_public)
    };
    match built {
        Ok(state) => Ok(Box::new(state)),
        Err(failure) => Err(ClientError::ProtocolError(classify(failure))),
    }
}

/// Whether a handshake message is one that this crate writes: by the given
/// side, in a buffer of the fixed length, with a number of bytes in use
/// that is no less than one tag and lies within the buffer.
pub open spec fn is_written(message: HandshakeView, by_responder: bool) -> bool {
    let (responder, len, buf) = match message {
        HandshakeView::Initiator(len, buf) => (false, len, buf),
        HandshakeView::Responder(len, buf) => (true, len, buf),
    };
    responder == by_responder && buf.len() == HANDSHAKE_BUFFER && TAGLEN <= len <= buf.len()
}

/// What a handshake write gives for each of its outcomes: the message of
/// the side that wrote, with the number of bytes that the Noise library
/// reported and the buffer that it wrote to, or the failure as a protocol
/// error. A number beyond the buffer is refused as invalid input.
pub open spec fn written(
    outcome: Result<usize, ProtocolFailure>,
    buf: Seq<u8>,
    by_responder: bool,
) -> Result<HandshakeView, ErrorView> {
    match outcome {
        Ok(n) => if n <= buf.len() {
            Ok(
                if by_responder {
                    HandshakeView::Responder(n, buf)
                } else {
                    HandshakeView::Initiator(n, buf)
                },
            )
        } else {
            Err(ErrorView::ProtocolError(ProtocolFailure::Input))
        },
        Err(kind) => Err(ErrorView::ProtocolError(kind)),
    }
}

/// Makes the handshake message of one side once the Noise write has
/// returned.
pub fn handshake_message(
    outcome: Result<usize, ProtocolFailure>,
    buf: Vec<u8>,
    by_responder: bool,
) -> (r: Result<HandshakeMessage, ClientError>)
    ensures
        match written(outcome, buf@, by_responder) {
            Ok(message) => r is Ok && r->Ok_0@ == message,
            Err(e) => r is Err && r->Err_0@ == e,
        },
{
    match outcome {
        Ok(n) => {
            if n <= buf.len() {
                if by_responder {
                    Ok(HandshakeMessage::Responder(n, buf))
                } else {
                    Ok(HandshakeMessage::Initiator(n, buf))
                }
            } else {
                Err(ClientError::ProtocolError(ProtocolFailure::Input))
            }
        },
        Err(kind) => Err(ClientError::ProtocolError(kind)),
    }
}

/// The request that carries a handshake message: to the server where no
/// peer is named, else to that peer.
pub open spec fn request_for(peer_key: Option<Seq<u8>>, message: HandshakeView) -> MessageView {
    MessageView::Transparent(
        match peer_key {
            None => TransparentView::ServerHandshake(message),
            Some(public_key) => TransparentView::PeerHandshake { public_key, message },
        },
    )
}

/// Addresses a handshake message: to the server where no peer is named,
/// else to that peer.
pub fn handshake_request(peer_key: Option<&[u8]>, message: HandshakeMessage) -> (r: RequestMessage)
    ensures
        r@ == request_for(
            match peer_key {
                None => None,
                Some(key) => Some(key@),
            },
            message@,
        ),
{
    match peer_key {
        None => RequestMessage::Transparent(TransparentMessage::ServerHandshake(message)),
        Some(key) => RequestMessage::Transparent(
            TransparentMessage::PeerHandshake { public_key: copy_bytes(key), message },
        ),
    }
}

/// Writes the next handshake message of one side, with an empty payload, to
/// a fresh buffer of the fixed length.
///
/// The message of a success is what [`written`] gives for the number of
/// bytes that the Noise library reported; that number is no less than one
/// tag.
pub fn write_step(state: &mut snow::HandshakeState, by_responder: bool) -> (r: Result<
    HandshakeMessage,
    ClientError,
>)
    ensures
        match r {
            Ok(message) => is_written(message@, by_responder),
            Err(e) => e@ is ProtocolError,
        },
{
    let mut buf = zeroed(HANDSHAKE_BUFFER);
    let empty: Vec<u8> = Vec::new();
    let outcome = match handshake_write(state, empty.as_slice(), &mut buf) {
        Ok(n) => Ok(n),
        Err(failure) => Err(classify(failure)),
    };
    handshake_message(outcome, buf, by_responder)
}

/// Reads the first `len` bytes of `buf` as the next handshake message and
/// drops its payload.
///
/// A length beyond the buffer is refused as invalid input before the Noise
/// library sees it.
pub fn read_step(state: &mut snow::HandshakeState, len: usize, buf: &[u8]) -> (r: Result<
    (),
    ClientError,
>)
    ensures
        len > buf@.len() ==> r is Err && r->Err_0@ == ErrorView::ProtocolError(
            ProtocolFailure::Input,
        ),
        r is Err ==> r->Err_0@ is ProtocolError,
{
    if len > buf.len() {
        return Err(ClientError::ProtocolError(ProtocolFailure::Input));
    }
    let mut payload = zeroed(HANDSHAKE_BUFFER);
    match handshake_read(state, slice_subrange(buf, 0, len), &mut payload) {
        Ok(_) => Ok(()),
        Err(failure) => Err(ClientError::ProtocolError(classify(failure))),
    }
}

/// Turns a completed handshake into the transport state of the channel.
pub fn finish(state: Box<snow::HandshakeState>) -> (r: Result<snow::TransportState, ClientError>)
    ensures
        r is Err ==> r->Err_0@ is ProtocolError,
{
    match into_transport_mode(*state) {
        Ok(transport) => Ok(transport),
        Err(failure) => Err(ClientError::ProtocolError(classify(failure))),
    }
}

} // verus!
