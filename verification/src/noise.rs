//! The Noise library, as far as this crate relies on it.
//!
//! Everything in this module is stated without proof: each function makes
//! the calls into the `snow` crate that its comment names, and its contract
//! says what they are taken to do.

use vstd::prelude::*;
use crate::error::ProtocolFailure;

verus! {

/// A Noise session in its handshake phase.
#[verifier::external_type_specification]
#[verifier::external_body]
pub struct ExHandshakeState(snow::HandshakeState);

/// A Noise session in its transport phase.
#[verifier::external_type_specification]
#[verifier::external_body]
pub struct ExTransportState(snow::TransportState);

/// A failure reported by the Noise library.
#[verifier::external_type_specification]
#[verifier::external_body]
pub struct ExNoiseFailure(snow::Error);

/// Whether the Noise library builds the state of an initiator for a pattern
/// name and a pair of keys.
pub uninterp spec fn initiator_builds(
    pattern: Seq<char>,
    local_private: Seq<u8>,
    remote_public: Seq<u8>,
) -> bool;

/// Whether the Noise library builds the state of a responder for a pattern
/// name and a pair of keys.
pub uninterp spec fn responder_builds(
    pattern: Seq<char>,
    local_private: Seq<u8>,
    remote_public: Seq<u8>,
) -> bool;

/// Calls `snow::Builder::build_initiator` on a builder made with
/// `Builder::new` from the parsed pattern name, `local_private_key` and
/// `remote_public_key`.
///
/// Whether the call succeeds depends on the pattern name and the keys alone;
/// `initiator_builds` names that. The keys are required to fit the buffers
/// that the library copies them to.
#[verifier::external_body]
pub(crate) fn build_initiator(pattern: &str, local_private: &[u8], remote_public: &[u8]) -> (r:
    Result<snow::HandshakeState, snow::Error>)
    requires
        local_private@.len() <= 32,
        remote_public@.len() <= 56,
    ensures
        r is Ok <==> initiator_builds(pattern@, local_private@, remote_public@),
{
    let params = match pattern.parse::<snow::params::NoiseParams>() {
        Ok(params) => params,
        Err(failure) => return Err(failure),
    };
    snow::Builder::new(params)
        .local_private_key(local_private)
        .remote_public_key(remote_public)
        .build_initiator()
}

/// Calls `snow::Builder::build_responder` on a builder made with
/// `Builder::new` from the parsed pattern name, `local_private_key` and
/// `remote_public_key`.
///
/// Whether the call succeeds depends on the pattern name and the keys alone;
/// `responder_builds` names that. The keys are required to fit the buffers
/// that the library copies them to.
#[verifier::external_body]
pub(crate) fn build_responder(pattern: &str, local_private: &[u8], remote_public: &[u8]) -> (r:
    Result<snow::HandshakeState, snow::Error>)
    requires
        local_private@.len() <= 32,
        remote_public@.len() <= 56,
    ensures
        r is Ok <==> responder_builds(pattern@, local_private@, remote_public@),
{
    let params = match pattern.parse::<snow::params::NoiseParams>() {
        Ok(params) => params,
        Err(failure) => return Err(failure),
    };
    snow::Builder::new(params)
        .local_private_key(local_private)
        .remote_public_key(remote_public)
        .build_responder()
}

/// Calls `snow::HandshakeState::write_message`.
///
/// The buffer keeps its length. A success reports a number of bytes that
/// lies within the buffer and is no less than the payload and one tag: every
/// message of every pattern carries a key of 32 bytes or is written under a
/// cipher key. The buffer is required to leave room for the key material
/// that may precede the payload.
#[verifier::external_body]
pub(crate) fn handshake_write(
    state: &mut snow::HandshakeState,
    payload: &[u8],
    message: &mut Vec<u8>,
) -> (r: Result<usize, snow::Error>)
    requires
        old(message)@.len() >= payload@.len() + 96,
    ensures
        final(message)@.len() == old(message)@.len(),
        r matches Ok(n) ==> payload@.len() + 16 <= n <= old(message)@.len(),
{
    state.write_message(payload, message.as_mut_slice())
}

/// Calls `snow::HandshakeState::read_message`.
///
/// The buffer for the payload keeps its length, and a success reports a
/// number of bytes that lies within it.
#[verifier::external_body]
pub(crate) fn handshake_read(
    state: &mut snow::HandshakeState,
    message: &[u8],
    payload: &mut Vec<u8>,
) -> (r: Result<usize, snow::Error>)
    ensures
        final(payload)@.len() == old(payload)@.len(),
        r matches Ok(n) ==> n <= old(payload)@.len(),
{
    state.read_message(message, payload.as_mut_slice())
}

/// Calls `snow::HandshakeState::into_transport_mode`.
///
/// Nothing is claimed of the outcome.
#[verifier::external_body]
pub(crate) fn into_transport_mode(state: snow::HandshakeState) -> (r: Result<
    snow::TransportState,
    snow::Error,
>) {
    state.into_transport_mode()
}

/// Calls `snow::TransportState::write_message`.
///
/// The buffer keeps its length. A success reports the length of the payload
/// plus the length of the tag; the call fails when that sum exceeds the
/// largest Noise message or the buffer.
#[verifier::external_body]
pub(crate) fn transport_write(
    state: &mut snow::TransportState,
    payload: &[u8],
    message: &mut Vec<u8>,
) -> (r: Result<usize, snow::Error>)
    ensures
        final(message)@.len() == old(message)@.len(),
        r matches Ok(n) ==> n == payload@.len() + 16,
        payload@.len() + 16 > 65535 || payload@.len() + 16 > old(message)@.len() ==> r is Err,
{
    state.write_message(payload, message.as_mut_slice())
}

/// Calls `snow::TransportState::read_message`.
///
/// The buffer for the plaintext keeps its length. A success reports the
/// length of the ciphertext less the length of the tag; the call fails when
/// the ciphertext is shorter than a tag, longer than the largest Noise
/// message, or when the plaintext would not fit the buffer.
#[verifier::external_body]
pub(crate) fn transport_read(
    state: &mut snow::TransportState,
    ciphertext: &[u8],
    plaintext: &mut Vec<u8>,
) -> (r: Result<usize, snow::Error>)
    ensures
        final(plaintext)@.len() == old(plaintext)@.len(),
        r matches Ok(n) ==> n + 16 == ciphertext@.len(),
        ciphertext@.len() < 16 || ciphertext@.len() > 65535 ==> r is Err,
        ciphertext@.len() - 16 > old(plaintext)@.len() ==> r is Err,
{
    state.read_message(ciphertext, plaintext.as_mut_slice())
}

/// Tells the variants of `snow::Error` apart.
///
/// Nothing is claimed of the outcome.
#[verifier::external_body]
pub(crate) fn classify(failure: snow::Error) -> (r: ProtocolFailure) {
    match failure {
        snow::Error::Pattern(_) => ProtocolFailure::Pattern,
        snow::Error::Init(_) => ProtocolFailure::Init,
        snow::Error::Prereq(_) => ProtocolFailure::Prereq,
        snow::Error::State(_) => ProtocolFailure::State,
        snow::Error::Input => ProtocolFailure::Input,
        snow::Error::Dh => ProtocolFailure::Dh,
        snow::Error::Decrypt => ProtocolFailure::Decrypt,
        _ => ProtocolFailure::Other,
    }
}

} // verus!
