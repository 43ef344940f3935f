//! Encryption and decryption of payloads on a channel in its transport phase.

use vstd::prelude::*;
use vstd::slice::slice_subrange;
use crate::bytes::{copy_bytes, zeroed};
use crate::error::{ClientError, ErrorView, ProtocolFailure};
use crate::noise::{classify, transport_read, transport_write};
use crate::protocol::{
    Encoding, EnvelopeView, MessageView, OpaqueMessage, OpaqueView, RequestMessage,
    SealedEnvelope, SessionId, MAX_NOISE_MESSAGE, TAGLEN,
};

verus! {

/// The phase that a channel is in.
#[derive(Debug, Clone, Copy, PartialEq, Eq, Structural)]
pub enum Phase {
    /// The handshake has been started and not completed.
    Handshake,
    /// The handshake has completed; payloads can be exchanged.
    Transport,
}

/// The Noise state of one channel.
pub enum ProtocolState {
    Handshake(Box<snow::HandshakeState>),
    Transport(snow::TransportState),
}

impl ProtocolState {
    /// The phase that this state stands for.
    pub open spec fn phase(&self) -> Phase {
        match *self {
            ProtocolState::Handshake(_) => Phase::Handshake,
            ProtocolState::Transport(_) => Phase::Transport,
        }
    }

    /// The phase that this state stands for.
    pub fn current_phase(&self) -> (r: Phase)
        ensures
            r == self.phase(),
    {
        match self {
            ProtocolState::Handshake(_) => Phase::Handshake,
            ProtocolState::Transport(_) => Phase::Transport,
        }
    }
}

/// What sealing gives for each outcome of the Noise write: the envelope that
/// frames the ciphertext, or the failure as a protocol error.
pub open spec fn sealed(
    written: Result<usize, ProtocolFailure>,
    contents: Seq<u8>,
    encoding: Encoding,
    broadcast: bool,
) -> Result<EnvelopeView, ErrorView> {
    match written {
        Ok(n) => if n <= u32::MAX {
            Ok(EnvelopeView { length: n as u32, encoding, payload: contents, broadcast })
        } else {
            Err(ErrorView::ProtocolError(ProtocolFailure::Input))
        },
        Err(kind) => Err(ErrorView::ProtocolError(kind)),
    }
}

/// Frames a ciphertext buffer once the Noise write has returned.
pub fn seal(
    written: Result<usize, ProtocolFailure>,
    contents: Vec<u8>,
    encoding: Encoding,
    broadcast: bool,
) -> (r: Result<SealedEnvelope, ClientError>)
    ensures
        match sealed(written, contents@, encoding, broadcast) {
            Ok(envelope) => r is Ok && r->Ok_0@ == envelope,
            Err(e) => r is Err && r->Err_0@ == e,
        },
{
    match written {
        Ok(n) => {
            if n <= u32::MAX as usize {
                Ok(SealedEnvelope { length: n as u32, encoding, payload: contents, broadcast })
            } else {
                Err(ClientError::ProtocolError(ProtocolFailure::Input))
            }
        },
        Err(kind) => Err(ClientError::ProtocolError(kind)),
    }
}

/// What opening gives for each outcome of the Noise read: the first bytes of
/// the buffer, as many as were decrypted, or the failure as a protocol error.
pub open spec fn opened(read: Result<usize, ProtocolFailure>, contents: Seq<u8>) -> Result<
    Seq<u8>,
    ErrorView,
> {
    match read {
        Ok(n) => if n <= contents.len() {
            Ok(contents.subrange(0, n as int))
        } else {
            Err(ErrorView::ProtocolError(ProtocolFailure::Input))
        },
        Err(kind) => Err(ErrorView::ProtocolError(kind)),
    }
}

/// Cuts a plaintext buffer to its length once the Noise read has returned.
pub fn open(read: Result<usize, ProtocolFailure>, contents: Vec<u8>) -> (r: Result<
    Vec<u8>,
    ClientError,
>)
    ensures
        match opened(read, contents@) {
            Ok(plaintext) => r is Ok && r->Ok_0@ == plaintext,
            Err(e) => r is Err && r->Err_0@ == e,
        },
{
    match read {
        Ok(n) => {
            if n <= contents.len() {
                let mut contents = contents;
                contents.truncate(n);
                Ok(contents)
            } else {
                Err(ClientError::ProtocolError(ProtocolFailure::Input))
            }
        },
        Err(kind) => Err(ClientError::ProtocolError(kind)),
    }
}

/// Encrypts a payload on a channel and frames the ciphertext.
///
/// The channel must be in its transport phase. The envelope of a success
/// holds as many bytes as the payload and one tag.
pub fn encrypt_channel(
    state: &mut ProtocolState,
    payload: &[u8],
    encoding: Encoding,
    broadcast: bool,
) -> (r: Result<SealedEnvelope, ClientError>)
    ensures
        final(state).phase() == old(state).phase(),
        old(state).phase() == Phase::Handshake ==> r is Err && r->Err_0@
            == ErrorView::NotTransportState,
        old(state).phase() == Phase::Transport ==> match r {
            Ok(envelope) => {
                &&& envelope.length == payload@.len() + TAGLEN
                &&& envelope.payload@.len() == payload@.len() + TAGLEN
                &&& envelope.encoding == encoding
                &&& envelope.broadcast == broadcast
            },
            Err(e) => e@ is ProtocolError,
        },
        payload@.len() + TAGLEN > MAX_NOISE_MESSAGE ==> r is Err,
        old(state).phase() == Phase::Transport && payload@.len() + TAGLEN > MAX_NOISE_MESSAGE ==> r
            is Err && r->Err_0@ == ErrorView::ProtocolError(ProtocolFailure::Input),
{
    match state {
        ProtocolState::Transport(transport) => {
            if payload.len() > MAX_NOISE_MESSAGE - TAGLEN {
                return Err(ClientError::ProtocolError(ProtocolFailure::Input));
            }
            let mut contents = zeroed(payload.len() + TAGLEN);
            let written = match transport_write(transport, payload, &mut contents) {
                Ok(n) => Ok(n),
                Err(failure) => Err(classify(failure)),
            };
            seal(written, contents, encoding, broadcast)
        },
        ProtocolState::Handshake(_) => Err(ClientError::NotTransportState),
    }
}

/// Decrypts the significant bytes of an envelope on a channel.
///
/// The channel must be in its transport phase. The plaintext of a success
/// is one tag shorter than the ciphertext.
pub fn decrypt_channel(state: &mut ProtocolState, envelope: &SealedEnvelope) -> (r: Result<
    Vec<u8>,
    ClientError,
>)
    ensures
        final(state).phase() == old(state).phase(),
        old(state).phase() == Phase::Handshake ==> r is Err && r->Err_0@
            == ErrorView::NotTransportState,
        old(state).phase() == Phase::Transport ==> match r {
            Ok(plaintext) => plaintext@.len() + TAGLEN == envelope.length,
            Err(e) => e@ is ProtocolError,
        },
        envelope.length > envelope.payload@.len() || envelope.length < TAGLEN || envelope.length
            > MAX_NOISE_MESSAGE ==> r is Err,
        old(state).phase() == Phase::Transport && envelope.length > envelope.payload@.len() ==> r
            is Err && r->Err_0@ == ErrorView::ProtocolError(ProtocolFailure::Input),
{
    match state {
        ProtocolState::Transport(transport) => {
            let length = envelope.length as usize;
            if length > envelope.payload.len() {
                return Err(ClientError::ProtocolError(ProtocolFailure::Input));
            }
            let mut contents = zeroed(length);
            let ciphertext = slice_subrange(envelope.payload.as_slice(), 0, length);
            let read = match transport_read(transport, ciphertext, &mut contents) {
                Ok(n) => Ok(n),
                Err(failure) => Err(classify(failure)),
            };
            open(read, contents)
        },
        ProtocolState::Handshake(_) => Err(ClientError::NotTransportState),
    }
}

/// Encrypts a message addressed to a peer.
///
/// The channel must be in its transport phase. The request of a success
/// names the peer and the session and carries the envelope, whose length is
/// that of the payload and one tag.
pub fn encrypt_peer_channel(
    public_key: &[u8],
    peer: &mut ProtocolState,
    payload: &[u8],
    encoding: Encoding,
    broadcast: bool,
    session_id: Option<SessionId>,
) -> (r: Result<RequestMessage, ClientError>)
    ensures
        final(peer).phase() == old(peer).phase(),
        old(peer).phase() == Phase::Handshake ==> r is Err && r->Err_0@
            == ErrorView::NotTransportState,
        old(peer).phase() == Phase::Transport ==> match r {
            Ok(request) => is_peer_request(
                request@,
                public_key@,
                session_id,
                encoding,
                broadcast,
                payload@.len(),
            ),
            Err(e) => e@ is ProtocolError,
        },
        payload@.len() + TAGLEN > MAX_NOISE_MESSAGE ==> r is Err,
        old(peer).phase() == Phase::Transport && payload@.len() + TAGLEN > MAX_NOISE_MESSAGE ==> r
            is Err && r->Err_0@ == ErrorView::ProtocolError(ProtocolFailure::Input),
{
    let envelope = encrypt_channel(peer, payload, encoding, broadcast)?;
    Ok(
        RequestMessage::Opaque(
            OpaqueMessage::PeerMessage { public_key: copy_bytes(public_key), session_id, envelope },
        ),
    )
}

/// Whether a message is an encrypted payload of `plaintext_len` bytes,
/// addressed to the peer `public_key`, with the given framing.
pub open spec fn is_peer_request(
    message: MessageView,
    public_key: Seq<u8>,
    session_id: Option<SessionId>,
    encoding: Encoding,
    broadcast: bool,
    plaintext_len: nat,
) -> bool {
    match message {
        MessageView::Opaque(OpaqueView::PeerMessage { public_key: key, session_id: id, envelope }) => {
            &&& key == public_key
            &&& id == session_id
            &&& envelope.encoding == encoding
            &&& envelope.broadcast == broadcast
            &&& envelope.length == plaintext_len + TAGLEN
            &&& envelope.payload.len() == plaintext_len + TAGLEN
        },
        _ => false,
    }
}

/// Decrypts a message received from a peer.
///
/// The channel must be in its transport phase.
pub fn decrypt_peer_channel(peer: &mut ProtocolState, envelope: &SealedEnvelope) -> (r: Result<
    Vec<u8>,
    ClientError,
>)
    ensures
        final(peer).phase() == old(peer).phase(),
        old(peer).phase() == Phase::Handshake ==> r is Err && r->Err_0@
            == ErrorView::NotTransportState,
        old(peer).phase() == Phase::Transport ==> match r {
            Ok(plaintext) => plaintext@.len() + TAGLEN == envelope.length,
            Err(e) => e@ is ProtocolError,
        },
        envelope.length > envelope.payload@.len() || envelope.length < TAGLEN || envelope.length
            > MAX_NOISE_MESSAGE ==> r is Err,
        old(peer).phase() == Phase::Transport && envelope.length > envelope.payload@.len() ==> r
            is Err && r->Err_0@ == ErrorView::ProtocolError(ProtocolFailure::Input),
{
    decrypt_channel(peer, envelope)
}

/// Encrypts a control message for the server; its encoding is `Blob`.
///
/// The channel must be in its transport phase.
pub fn encrypt_server_channel(server: &mut ProtocolState, payload: &[u8], broadcast: bool) -> (r:
    Result<SealedEnvelope, ClientError>)
    ensures
        final(server).phase() == old(server).phase(),
        old(server).phase() == Phase::Handshake ==> r is Err && r->Err_0@
            == ErrorView::NotTransportState,
        old(server).phase() == Phase::Transport ==> match r {
            Ok(envelope) => {
                &&& envelope.length == payload@.len() + TAGLEN
                &&& envelope.payload@.len() == payload@.len() + TAGLEN
                &&& envelope.encoding == Encoding::Blob
                &&& envelope.broadcast == broadcast
            },
            Err(e) => e@ is ProtocolError,
        },
        payload@.len() + TAGLEN > MAX_NOISE_MESSAGE ==> r is Err,
        old(server).phase() == Phase::Transport && payload@.len() + TAGLEN > MAX_NOISE_MESSAGE ==> r
            is Err && r->Err_0@ == ErrorView::ProtocolError(ProtocolFailure::Input),
{
    encrypt_channel(server, payload, Encoding::Blob, broadcast)
}

/// Decrypts a control message of the server, and reports its encoding.
///
/// The channel must be in its transport phase.
pub fn decrypt_server_channel(server: &mut ProtocolState, envelope: &SealedEnvelope) -> (r:
    Result<(Encoding, Vec<u8>), ClientError>)
    ensures
        final(server).phase() == old(server).phase(),
        old(server).phase() == Phase::Handshake ==> r is Err && r->Err_0@
            == ErrorView::NotTransportState,
        old(server).phase() == Phase::Transport ==> match r {
            Ok((encoding, plaintext)) => encoding == envelope.encoding && plaintext@.len() + TAGLEN
                == envelope.length,
            Err(e) => e@ is ProtocolError,
        },
        envelope.length > envelope.payload@.len() || envelope.length < TAGLEN || envelope.length
            > MAX_NOISE_MESSAGE ==> r is Err,
        old(server).phase() == Phase::Transport && envelope.length > envelope.payload@.len() ==> r
            is Err && r->Err_0@ == ErrorView::ProtocolError(ProtocolFailure::Input),
{
    let contents = decrypt_channel(server, envelope)?;
    Ok((envelope.encoding, contents))
}

} // verus!
