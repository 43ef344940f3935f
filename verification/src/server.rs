//! The channel between the client and the relay server.

use vstd::prelude::*;
use crate::channel::{
    decrypt_server_channel, encrypt_server_channel, Phase, ProtocolState,
};
use crate::error::{ClientError, ErrorView, ProtocolFailure};
use crate::handshake::{
    begin, finish, is_written, keys_fit, noise_builds, read_step, write_step,
};
use crate::protocol::{
    Encoding, HandshakeMessage, SealedEnvelope, MAX_NOISE_MESSAGE, TAGLEN,
};

verus! {

/// The Noise state of the channel to the server.
///
/// The state is absent only after the Noise library refused to turn a
/// handshake into a transport, which consumes the handshake.
pub struct ServerChannel {
    state: Option<ProtocolState>,
}

impl View for ServerChannel {
    type V = Option<Phase>;

    closed spec fn view(&self) -> Option<Phase> {
        match self.state {
            Some(state) => Some(state.phase()),
            None => None,
        }
    }
}

impl ServerChannel {
    /// Starts a handshake towards the server as its initiator.
    ///
    /// Keys of another length than the pattern's are refused as invalid
    /// input. For keys of that length the channel is made exactly when the
    /// Noise library builds the initiator.
    pub fn initialize(local_private: &[u8], remote_server_public: &[u8]) -> (r: Result<
        ServerChannel,
        ClientError,
    >)
        ensures
            match r {
                Ok(channel) => channel@ == Some(Phase::Handshake),
                Err(e) => e@ is ProtocolError,
            },
            !keys_fit(local_private@, remote_server_public@) ==> r is Err && r->Err_0@
                == ErrorView::ProtocolError(ProtocolFailure::Input),
            keys_fit(local_private@, remote_server_public@) ==> (r is Ok <==> noise_builds(
                local_private@,
                remote_server_public@,
                true,
            )),
    {
        let state = begin(local_private, remote_server_public, true)?;
        Ok(ServerChannel { state: Some(ProtocolState::Handshake(state)) })
    }

    /// The phase that the channel is in, if its state is present.
    pub fn phase(&self) -> (r: Option<Phase>)
        ensures
            r == self@,
    {
        match &self.state {
            Some(state) => Some(state.current_phase()),
            None => None,
        }
    }

    /// Produces the first handshake message: the initiator's, with at least
    /// one tag of bytes in use.
    ///
    /// Fails with `NotHandshakeState` unless the channel is in its handshake
    /// phase; the phase does not change.
    pub fn write_first(&mut self) -> (r: Result<HandshakeMessage, ClientError>)
        ensures
            final(self)@ == old(self)@,
            old(self)@ != Some(Phase::Handshake) ==> r is Err && r->Err_0@
                == ErrorView::NotHandshakeState,
            old(self)@ == Some(Phase::Handshake) ==> match r {
                Ok(message) => is_written(message@, false),
                Err(e) => e@ is ProtocolError,
            },
    {
        match &mut self.state {
            Some(ProtocolState::Handshake(initiator)) => write_step(initiator, false),
            _ => Err(ClientError::NotHandshakeState),
        }
    }

    /// Consumes the reply of the server and moves the channel to its
    /// transport phase.
    ///
    /// Fails with `NotHandshakeState` unless the channel is in its handshake
    /// phase. A reply that the Noise library refuses leaves the handshake in
    /// place; if the library refuses the transition itself, the state is
    /// lost. A channel in its transport phase stays there.
    pub fn complete(&mut self, len: usize, buf: &[u8]) -> (r: Result<(), ClientError>)
        ensures
            old(self)@ != Some(Phase::Handshake) ==> final(self)@ == old(self)@ && r is Err
                && r->Err_0@ == ErrorView::NotHandshakeState,
            old(self)@ == Some(Phase::Handshake) ==> match r {
                Ok(_) => final(self)@ == Some(Phase::Transport),
                Err(e) => {
                    &&& e@ is ProtocolError
                    &&& final(self)@ == Some(Phase::Handshake) || final(self)@ is None
                },
            },
            old(self)@ == Some(Phase::Handshake) && len > buf@.len() ==> final(self)@ == old(self)@
                && r is Err && r->Err_0@ == ErrorView::ProtocolError(ProtocolFailure::Input),
    {
        match self.state.take() {
            Some(ProtocolState::Handshake(mut initiator)) => {
                match read_step(&mut initiator, len, buf) {
                    Ok(_) => {},
                    Err(e) => {
                        self.state = Some(ProtocolState::Handshake(initiator));
                        return Err(e);
                    },
                }
                let transport = finish(initiator)?;
                self.state = Some(ProtocolState::Transport(transport));
                Ok(())
            },
            other => {
                self.state = other;
                Err(ClientError::NotHandshakeState)
            },
        }
    }

    /// Encrypts a control message for the server.
    ///
    /// Fails with `NotTransportState` unless the channel is in its transport
    /// phase; the phase does not change.
    pub fn encrypt(&mut self, plaintext: &[u8]) -> (r: Result<SealedEnvelope, ClientError>)
        ensures
            final(self)@ == old(self)@,
            old(self)@ != Some(Phase::Transport) ==> r is Err && r->Err_0@
                == ErrorView::NotTransportState,
            old(self)@ == Some(Phase::Transport) ==> match r {
                Ok(envelope) => {
                    &&& envelope.length == plaintext@.len() + TAGLEN
                    &&& envelope.payload@.len() == plaintext@.len() + TAGLEN
                    &&& envelope.encoding == Encoding::Blob
                    &&& !envelope.broadcast
                },
                Err(e) => e@ is ProtocolError,
            },
            plaintext@.len() + TAGLEN > MAX_NOISE_MESSAGE ==> r is Err,
            old(self)@ == Some(Phase::Transport) && plaintext@.len() + TAGLEN > MAX_NOISE_MESSAGE
                ==> r is Err && r->Err_0@ == ErrorView::ProtocolError(ProtocolFailure::Input),
    {
        match &mut self.state {
            Some(state) => encrypt_server_channel(state, plaintext, false),
            None => Err(ClientError::NotTransportState),
        }
    }

    /// Decrypts a control message of the server, and reports its encoding.
    ///
    /// Fails with `NotTransportState` unless the channel is in its transport
    /// phase; the phase does not change.
    pub fn decrypt(&mut self, envelope: &SealedEnvelope) -> (r: Result<
        (Encoding, Vec<u8>),
        ClientError,
    >)
        ensures
            final(self)@ == old(self)@,
            old(self)@ != Some(Phase::Transport) ==> r is Err && r->Err_0@
                == ErrorView::NotTransportState,
            old(self)@ == Some(Phase::Transport) ==> match r {
                Ok((encoding, plaintext)) => encoding == envelope.encoding && plaintext@.len()
                    + TAGLEN == envelope.length,
                Err(e) => e@ is ProtocolError,
            },
            envelope.length > envelope.payload@.len() || envelope.length < TAGLEN
                || envelope.length > MAX_NOISE_MESSAGE ==> r is Err,
            old(self)@ == Some(Phase::Transport) && envelope.length > envelope.payload@.len()
                ==> r is Err && r->Err_0@ == ErrorView::ProtocolError(ProtocolFailure::Input),
    {
        match &mut self.state {
            Some(state) => decrypt_server_channel(state, envelope),
            None => Err(ClientError::NotTransportState),
        }
    }
}

} // verus!
