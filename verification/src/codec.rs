//! Encoding messages to frames and decoding frames to messages.

use vstd::prelude::*;
use vstd::bytes::{
    u128_from_le_bytes, u128_to_le_bytes, u16_from_le_bytes, u16_to_le_bytes, u32_from_le_bytes,
    u32_to_le_bytes, u64_from_le_bytes, u64_to_le_bytes, spec_u128_to_le_bytes,
    spec_u16_to_le_bytes, spec_u32_to_le_bytes, spec_u64_to_le_bytes,
};
use vstd::slice::slice_subrange;
use vstd::utf8::{decode_utf8, valid_utf8};
use crate::bytes::copy_bytes;
use crate::error::{ClientError, ErrorView};
use crate::protocol::{
    keys_view, Encoding, HandshakeMessage, OpaqueMessage, RequestMessage, ResponseMessage,
    SealedEnvelope, ServerMessage, SessionId, SessionRequest, SessionState, TransparentMessage,
    MAX_FRAME_LENGTH,
};
use crate::wire::{
    decoded_message, decoded_server_message, encoding_tag, is_frame, is_server_plaintext,
    law_decoding_inverts_encoding, law_server_decoding_inverts_encoding, parse_envelope,
    parse_handshake, parse_opaque, parse_server_fields, parse_state, parse_transparent, put_bool,
    put_bytes, put_each, put_keys, put_session, put_text, tag_encoding, take_bool, take_bytes,
    take_each, take_keys, take_session, take_text, take_u128, take_u16, take_u32, take_u64,
    take_u8, wire_envelope, wire_handshake, wire_message, wire_opaque, wire_server_message,
    wire_state, wire_transparent,
};

verus! {

// ----------------------------------------------------------------- writing

/// Appends the encoding of a byte.
fn write_u8(out: &mut Vec<u8>, x: u8)
    ensures
        final(out)@ == old(out)@ + seq![x],
{
    out.push(x);
    assert(out@ =~= old(out)@ + seq![x]);
}

/// Appends the encoding of a 16-bit integer.
fn write_u16(out: &mut Vec<u8>, x: u16)
    ensures
        final(out)@ == old(out)@ + spec_u16_to_le_bytes(x),
{
    let b = u16_to_le_bytes(x);
    out.extend_from_slice(b.as_slice());
}

/// Appends the encoding of a 32-bit integer.
fn write_u32(out: &mut Vec<u8>, x: u32)
    ensures
        final(out)@ == old(out)@ + spec_u32_to_le_bytes(x),
{
    let b = u32_to_le_bytes(x);
    out.extend_from_slice(b.as_slice());
}

/// Appends the encoding of a 64-bit integer.
fn write_u64(out: &mut Vec<u8>, x: u64)
    ensures
        final(out)@ == old(out)@ + spec_u64_to_le_bytes(x),
{
    let b = u64_to_le_bytes(x);
    out.extend_from_slice(b.as_slice());
}

/// Appends the encoding of a 128-bit integer.
fn write_u128(out: &mut Vec<u8>, x: u128)
    ensures
        final(out)@ == old(out)@ + spec_u128_to_le_bytes(x),
{
    let b = u128_to_le_bytes(x);
    out.extend_from_slice(b.as_slice());
}

/// Appends the encoding of a byte string.
fn write_bytes(out: &mut Vec<u8>, b: &[u8])
    ensures
        final(out)@ == old(out)@ + put_bytes(b@),
{
    write_u32(out, b.len() as u32);
    out.extend_from_slice(b);
    assert(out@ =~= old(out)@ + put_bytes(b@));
}

/// Appends the encoding of a text.
fn write_text(out: &mut Vec<u8>, text: &str)
    ensures
        final(out)@ == old(out)@ + put_text(text@),
{
    write_bytes(out, text.as_bytes());
}

/// Appends the encoding of a truth value.
fn write_bool(out: &mut Vec<u8>, b: bool)
    ensures
        final(out)@ == old(out)@ + put_bool(b),
{
    write_u8(out, if b { 1u8 } else { 0u8 });
}

/// Appends the encoding of a list of byte strings.
fn write_keys(out: &mut Vec<u8>, keys: &Vec<Vec<u8>>)
    ensures
        final(out)@ == old(out)@ + put_keys(keys_view(keys@)),
{
    let ghost all = keys_view(keys@);
    write_u32(out, keys.len() as u32);
    let ghost head = out@;
    let mut i: usize = 0;
    assert(all.take(0) =~= Seq::<Seq<u8>>::empty());
    assert(out@ =~= head + put_each(all.take(0)));
    while i < keys.len()
        invariant
            0 <= i <= keys@.len(),
            all == keys_view(keys@),
            out@ == head + put_each(all.take(i as int)),
        decreases keys@.len() - i,
    {
        write_bytes(out, keys[i].as_slice());
        proof {
            let next = all.take(i + 1);
            assert(next.drop_last() =~= all.take(i as int));
            assert(next.last() == keys@[i as int]@);
            assert(out@ =~= head + put_each(next));
        }
        i += 1;
    }
    assert(all.take(i as int) =~= all);
    assert(out@ =~= old(out)@ + put_keys(all));
}

/// Appends the encoding of an optional session.
fn write_session(out: &mut Vec<u8>, session_id: &Option<SessionId>)
    ensures
        final(out)@ == old(out)@ + put_session(*session_id),
{
    match session_id {
        None => {
            write_u8(out, 0u8);
        },
        Some(id) => {
            write_u8(out, 1u8);
            write_u128(out, id.0);
            assert(out@ =~= old(out)@ + put_session(*session_id));
        },
    }
}

/// The byte that stands for an encoding.
fn encoding_byte(encoding: Encoding) -> (r: u8)
    ensures
        r == encoding_tag(encoding),
{
    match encoding {
        Encoding::Noop => 0u8,
        Encoding::Blob => 1u8,
        Encoding::Json => 2u8,
    }
}

/// Appends the encoding of an envelope.
fn write_envelope(out: &mut Vec<u8>, envelope: &SealedEnvelope)
    ensures
        final(out)@ == old(out)@ + wire_envelope(envelope@),
{
    write_u32(out, envelope.length);
    write_u8(out, encoding_byte(envelope.encoding));
    write_bytes(out, envelope.payload.as_slice());
    write_bool(out, envelope.broadcast);
    assert(out@ =~= old(out)@ + wire_envelope(envelope@));
}

/// Appends the encoding of a handshake message.
fn write_handshake(out: &mut Vec<u8>, message: &HandshakeMessage)
    ensures
        final(out)@ == old(out)@ + wire_handshake(message@),
{
    match message {
        HandshakeMessage::Initiator(len, buf) => {
            write_u8(out, 0u8);
            write_u64(out, *len as u64);
            write_bytes(out, buf.as_slice());
        },
        HandshakeMessage::Responder(len, buf) => {
            write_u8(out, 1u8);
            write_u64(out, *len as u64);
            write_bytes(out, buf.as_slice());
        },
    }
    assert(out@ =~= old(out)@ + wire_handshake(message@));
}

/// Appends the encoding of a transparent message.
fn write_transparent(out: &mut Vec<u8>, message: &TransparentMessage)
    ensures
        final(out)@ == old(out)@ + wire_transparent(message@),
{
    match message {
        TransparentMessage::ServerHandshake(handshake) => {
            write_u8(out, 0u8);
            write_handshake(out, handshake);
        },
        TransparentMessage::PeerHandshake { public_key, message: handshake } => {
            write_u8(out, 1u8);
            write_bytes(out, public_key.as_slice());
            write_handshake(out, handshake);
        },
    }
    assert(out@ =~= old(out)@ + wire_transparent(message@));
}

/// Appends the encoding of an opaque message.
fn write_opaque(out: &mut Vec<u8>, message: &OpaqueMessage)
    ensures
        final(out)@ == old(out)@ + wire_opaque(message@),
{
    match message {
        OpaqueMessage::ServerMessage(envelope) => {
            write_u8(out, 0u8);
            write_envelope(out, envelope);
        },
        OpaqueMessage::PeerMessage { public_key, session_id, envelope } => {
            write_u8(out, 1u8);
            write_bytes(out, public_key.as_slice());
            write_session(out, session_id);
            write_envelope(out, envelope);
        },
    }
    assert(out@ =~= old(out)@ + wire_opaque(message@));
}

/// Appends the encoding of the state of a session.
fn write_state(out: &mut Vec<u8>, state: &SessionState)
    ensures
        final(out)@ == old(out)@ + wire_state(state@),
{
    write_u128(out, state.session_id.0);
    write_keys(out, &state.all_participants);
    assert(out@ =~= old(out)@ + wire_state(state@));
}

/// Appends the encoding of a message of the server channel.
fn write_server_message(out: &mut Vec<u8>, message: &ServerMessage)
    ensures
        final(out)@ == old(out)@ + wire_server_message(message@),
{
    match message {
        ServerMessage::Error(code, text) => {
            write_u8(out, 0u8);
            write_u16(out, *code);
            write_text(out, text.as_str());
        },
        ServerMessage::NewSession(request) => {
            write_u8(out, 1u8);
            write_keys(out, &request.participant_keys);
        },
        ServerMessage::SessionCreated(state) => {
            write_u8(out, 2u8);
            write_state(out, state);
        },
        ServerMessage::SessionReadyNotify(id) => {
            write_u8(out, 3u8);
            write_u128(out, id.0);
        },
        ServerMessage::SessionReady(state) => {
            write_u8(out, 4u8);
            write_state(out, state);
        },
        ServerMessage::SessionConnection { session_id, peer_key } => {
            write_u8(out, 5u8);
            write_u128(out, session_id.0);
            write_bytes(out, peer_key.as_slice());
        },
        ServerMessage::SessionActiveNotify(id) => {
            write_u8(out, 6u8);
            write_u128(out, id.0);
        },
        ServerMessage::SessionActive(state) => {
            write_u8(out, 7u8);
            write_state(out, state);
        },
        ServerMessage::CloseSession(id) => {
            write_u8(out, 8u8);
            write_u128(out, id.0);
        },
        ServerMessage::SessionFinished(id) => {
            write_u8(out, 9u8);
            write_u128(out, id.0);
        },
    }
    assert(out@ =~= old(out)@ + wire_server_message(message@));
}

/// Refuses an encoding that is longer than the largest frame.
fn framed(out: Vec<u8>) -> (r: Result<Vec<u8>, ClientError>)
    ensures
        match r {
            Ok(frame) => frame@ == out@ && out@.len() <= MAX_FRAME_LENGTH,
            Err(e) => e@ == ErrorView::EncodeError && out@.len() > MAX_FRAME_LENGTH,
        },
{
    if out.len() > MAX_FRAME_LENGTH {
        Err(ClientError::EncodeError)
    } else {
        Ok(out)
    }
}

/// Encodes a request as one frame.
///
/// Fails with `EncodeError` exactly when the encoding is longer than the
/// largest frame.
pub fn encode_request(message: &RequestMessage) -> (r: Result<Vec<u8>, ClientError>)
    ensures
        match r {
            Ok(frame) => frame@ == wire_message(message@) && frame@.len() <= MAX_FRAME_LENGTH,
            Err(e) => e@ == ErrorView::EncodeError && wire_message(message@).len()
                > MAX_FRAME_LENGTH,
        },
{
    let mut out: Vec<u8> = Vec::new();
    match message {
        RequestMessage::Transparent(inner) => {
            write_u8(&mut out, 0u8);
            write_transparent(&mut out, inner);
        },
        RequestMessage::Opaque(inner) => {
            write_u8(&mut out, 1u8);
            write_opaque(&mut out, inner);
        },
    }
    assert(out@ =~= wire_message(message@));
    framed(out)
}

/// Encodes a response as one frame.
///
/// Fails with `EncodeError` exactly when the encoding is longer than the
/// largest frame.
pub fn encode_response(message: &ResponseMessage) -> (r: Result<Vec<u8>, ClientError>)
    ensures
        match r {
            Ok(frame) => frame@ == wire_message(message@) && frame@.len() <= MAX_FRAME_LENGTH,
            Err(e) => e@ == ErrorView::EncodeError && wire_message(message@).len()
                > MAX_FRAME_LENGTH,
        },
{
    let mut out: Vec<u8> = Vec::new();
    match message {
        ResponseMessage::Transparent(inner) => {
            write_u8(&mut out, 0u8);
            write_transparent(&mut out, inner);
        },
        ResponseMessage::Opaque(inner) => {
            write_u8(&mut out, 1u8);
            write_opaque(&mut out, inner);
        },
    }
    assert(out@ =~= wire_message(message@));
    framed(out)
}

/// Encodes a message of the server channel as the plaintext of an envelope.
///
/// Fails with `EncodeError` exactly when the encoding is longer than the
/// largest frame.
pub fn encode_server_message(message: &ServerMessage) -> (r: Result<Vec<u8>, ClientError>)
    ensures
        match r {
            Ok(plaintext) => plaintext@ == wire_server_message(message@) && plaintext@.len()
                <= MAX_FRAME_LENGTH,
            Err(e) => e@ == ErrorView::EncodeError && wire_server_message(message@).len()
                > MAX_FRAME_LENGTH,
        },
{
    let mut out: Vec<u8> = Vec::new();
    write_server_message(&mut out, message);
    assert(out@ =~= wire_server_message(message@));
    framed(out)
}

// ----------------------------------------------------------------- reading

/// Whether `end` is a place in `buf` behind which `rest` is left.
pub open spec fn left_at(buf: Seq<u8>, rest: Seq<u8>, end: usize) -> bool {
    end <= buf.len() && buf.skip(end as int) == rest
}

/// Reads a byte at `pos`, and returns it with the place behind it.
fn read_u8(buf: &[u8], pos: usize) -> (r: Option<(u8, usize)>)
    requires
        pos <= buf@.len(),
    ensures
        match take_u8(buf@.skip(pos as int)) {
            Some((v, rest)) => r matches Some((x, end)) && x == v && left_at(buf@, rest, end),
            None => r is None,
        },
{
    if pos < buf.len() {
        assert(buf@.skip(pos as int).skip(1) =~= buf@.skip(pos + 1));
        Some((buf[pos], pos + 1))
    } else {
        None
    }
}

/// Reads a 16-bit integer at `pos`, and returns it with the place behind it.
fn read_u16(buf: &[u8], pos: usize) -> (r: Option<(u16, usize)>)
    requires
        pos <= buf@.len(),
    ensures
        match take_u16(buf@.skip(pos as int)) {
            Some((v, rest)) => r matches Some((x, end)) && x == v && left_at(buf@, rest, end),
            None => r is None,
        },
{
    if buf.len() - pos >= 2 {
        assert(buf@.skip(pos as int).skip(2) =~= buf@.skip(pos + 2));
        assert(buf@.skip(pos as int).take(2) =~= buf@.subrange(pos as int, pos + 2));
        Some((u16_from_le_bytes(slice_subrange(buf, pos, pos + 2)), pos + 2))
    } else {
        None
    }
}

/// Reads a 32-bit integer at `pos`, and returns it with the place behind it.
fn read_u32(buf: &[u8], pos: usize) -> (r: Option<(u32, usize)>)
    requires
        pos <= buf@.len(),
    ensures
        match take_u32(buf@.skip(pos as int)) {
            Some((v, rest)) => r matches Some((x, end)) && x == v && left_at(buf@, rest, end),
            None => r is None,
        },
{
    if buf.len() - pos >= 4 {
        assert(buf@.skip(pos as int).skip(4) =~= buf@.skip(pos + 4));
        assert(buf@.skip(pos as int).take(4) =~= buf@.subrange(pos as int, pos + 4));
        Some((u32_from_le_bytes(slice_subrange(buf, pos, pos + 4)), pos + 4))
    } else {
        None
    }
}

/// Reads a 64-bit integer at `pos`, and returns it with the place behind it.
fn read_u64(buf: &[u8], pos: usize) -> (r: Option<(u64, usize)>)
    requires
        pos <= buf@.len(),
    ensures
        match take_u64(buf@.skip(pos as int)) {
            Some((v, rest)) => r matches Some((x, end)) && x == v && left_at(buf@, rest, end),
            None => r is None,
        },
{
    if buf.len() - pos >= 8 {
        assert(buf@.skip(pos as int).skip(8) =~= buf@.skip(pos + 8));
        assert(buf@.skip(pos as int).take(8) =~= buf@.subrange(pos as int, pos + 8));
        Some((u64_from_le_bytes(slice_subrange(buf, pos, pos + 8)), pos + 8))
    } else {
        None
    }
}

/// Reads a 128-bit integer at `pos`, and returns it with the place behind it.
fn read_u128(buf: &[u8], pos: usize) -> (r: Option<(u128, usize)>)
    requires
        pos <= buf@.len(),
    ensures
        match take_u128(buf@.skip(pos as int)) {
            Some((v, rest)) => r matches Some((x, end)) && x == v && left_at(buf@, rest, end),
            None => r is None,
        },
{
    if buf.len() - pos >= 16 {
        assert(buf@.skip(pos as int).skip(16) =~= buf@.skip(pos + 16));
        assert(buf@.skip(pos as int).take(16) =~= buf@.subrange(pos as int, pos + 16));
        Some((u128_from_le_bytes(slice_subrange(buf, pos, pos + 16)), pos + 16))
    } else {
        None
    }
}

/// Reads a byte string at `pos`, and returns it with the place behind it.
fn read_bytes(buf: &[u8], pos: usize) -> (r: Option<(Vec<u8>, usize)>)
    requires
        pos <= buf@.len(),
    ensures
        match take_bytes(buf@.skip(pos as int)) {
            Some((v, rest)) => r matches Some((x, end)) && x@ == v && left_at(buf@, rest, end),
            None => r is None,
        },
{
    let (n, start) = match read_u32(buf, pos) {
        Some(found) => found,
        None => {
            return None;
        },
    };
    let n = n as usize;
    if buf.len() - start >= n {
        assert(buf@.skip(start as int).skip(n as int) =~= buf@.skip(start + n));
        assert(buf@.skip(start as int).take(n as int) =~= buf@.subrange(start as int, start + n));
        Some((copy_bytes(slice_subrange(buf, start, start + n)), start + n))
    } else {
        None
    }
}

/// Calls `String::from_utf8`.
///
/// std documents that the call succeeds exactly on valid UTF-8, and that
/// the string then holds the characters that the bytes encode.
#[verifier::external_body]
fn text_from_utf8(bytes: Vec<u8>) -> (r: Option<String>)
    ensures
        match r {
            Some(text) => valid_utf8(bytes@) && text@ == decode_utf8(bytes@),
            None => !valid_utf8(bytes@),
        },
{
    match String::from_utf8(bytes) {
        Ok(text) => Some(text),
        Err(_) => None,
    }
}

/// Reads a text at `pos`, and returns it with the place behind it.
fn read_text(buf: &[u8], pos: usize) -> (r: Option<(String, usize)>)
    requires
        pos <= buf@.len(),
    ensures
        match take_text(buf@.skip(pos as int)) {
            Some((v, rest)) => r matches Some((x, end)) && x@ == v && left_at(buf@, rest, end),
            None => r is None,
        },
{
    let (bytes, end) = match read_bytes(buf, pos) {
        Some(found) => found,
        None => {
            return None;
        },
    };
    match text_from_utf8(bytes) {
        Some(text) => Some((text, end)),
        None => None,
    }
}

/// Reads a truth value at `pos`, and returns it with the place behind it.
fn read_bool(buf: &[u8], pos: usize) -> (r: Option<(bool, usize)>)
    requires
        pos <= buf@.len(),
    ensures
        match take_bool(buf@.skip(pos as int)) {
            Some((v, rest)) => r matches Some((x, end)) && x == v && left_at(buf@, rest, end),
            None => r is None,
        },
{
    match read_u8(buf, pos) {
        Some((tag, end)) => {
            if tag == 0 {
                Some((false, end))
            } else if tag == 1 {
                Some((true, end))
            } else {
                None
            }
        },
        None => None,
    }
}

/// Reads an optional session at `pos`, and returns it with the place behind it.
fn read_session(buf: &[u8], pos: usize) -> (r: Option<(Option<SessionId>, usize)>)
    requires
        pos <= buf@.len(),
    ensures
        match take_session(buf@.skip(pos as int)) {
            Some((v, rest)) => r matches Some((x, end)) && x == v && left_at(buf@, rest, end),
            None => r is None,
        },
{
    match read_u8(buf, pos) {
        Some((tag, end)) => {
            if tag == 0 {
                Some((None, end))
            } else if tag == 1 {
                match read_u128(buf, end) {
                    Some((id, end)) => Some((Some(SessionId(id)), end)),
                    None => None,
                }
            } else {
                None
            }
        },
        None => None,
    }
}

/// Reads a list of byte strings at `pos`, and returns it with the place behind it.
fn read_keys(buf: &[u8], pos: usize) -> (r: Option<(Vec<Vec<u8>>, usize)>)
    requires
        pos <= buf@.len(),
    ensures
        match take_keys(buf@.skip(pos as int)) {
            Some((v, rest)) => r matches Some((x, end)) && keys_view(x@) == v && left_at(
                buf@,
                rest,
                end,
            ),
            None => r is None,
        },
{
    let (n, start) = match read_u32(buf, pos) {
        Some(found) => found,
        None => {
            return None;
        },
    };
    let ghost whole = take_each(buf@.skip(start as int), n as nat);
    let mut keys: Vec<Vec<u8>> = Vec::new();
    let mut at = start;
    let mut i: u32 = 0;
    assert(keys_view(keys@) =~= Seq::<Seq<u8>>::empty());
    assert(match take_each(buf@.skip(at as int), (n - i) as nat) {
        Some((more, rest)) => whole == Some((keys_view(keys@) + more, rest)),
        None => whole is None,
    }) by {
        match whole {
            Some((more, rest)) => {
                assert(keys_view(keys@) + more =~= more);
            },
            None => {},
        }
    }
    while i < n
        invariant
            0 <= i <= n,
            at <= buf@.len(),
            whole == take_each(buf@.skip(start as int), n as nat),
            take_keys(buf@.skip(pos as int)) == whole,
            match take_each(buf@.skip(at as int), (n - i) as nat) {
                Some((more, rest)) => whole == Some((keys_view(keys@) + more, rest)),
                None => whole is None,
            },
        decreases n - i,
    {
        let ghost before = keys_view(keys@);
        let ghost here = buf@.skip(at as int);
        match read_bytes(buf, at) {
            Some((key, end)) => {
                proof {
                    let after = buf@.skip(end as int);
                    assert(take_bytes(here) == Some((key@, after)));
                    let grown = keys_view(keys@.push(key));
                    assert(grown =~= before + seq![key@]);
                    match take_each(after, (n - i - 1) as nat) {
                        Some((more, rest)) => {
                            assert(take_each(here, (n - i) as nat) == Some(
                                (seq![key@] + more, rest),
                            ));
                            assert(before + (seq![key@] + more) =~= grown + more);
                        },
                        None => {
                            assert(take_each(here, (n - i) as nat) is None);
                        },
                    }
                }
                keys.push(key);
                at = end;
            },
            None => {
                assert(take_each(here, (n - i) as nat) is None);
                return None;
            },
        }
        i += 1;
    }
    proof {
        assert(take_each(buf@.skip(at as int), 0) == Some(
            (Seq::<Seq<u8>>::empty(), buf@.skip(at as int)),
        ));
        assert(keys_view(keys@) + Seq::<Seq<u8>>::empty() =~= keys_view(keys@));
    }
    Some((keys, at))
}

/// The encoding that a byte stands for, if any.
fn read_encoding(tag: u8) -> (r: Option<Encoding>)
    ensures
        r == tag_encoding(tag),
{
    if tag == 0 {
        Some(Encoding::Noop)
    } else if tag == 1 {
        Some(Encoding::Blob)
    } else if tag == 2 {
        Some(Encoding::Json)
    } else {
        None
    }
}

/// Reads an envelope at `pos`, and returns it with the place behind it.
fn read_envelope(buf: &[u8], pos: usize) -> (r: Option<(SealedEnvelope, usize)>)
    requires
        pos <= buf@.len(),
    ensures
        match parse_envelope(buf@.skip(pos as int)) {
            Some((v, rest)) => r matches Some((x, end)) && x@ == v && left_at(buf@, rest, end),
            None => r is None,
        },
{
    proof {
        reveal(parse_envelope);
    }
    let (length, at) = match read_u32(buf, pos) {
        Some(found) => found,
        None => {
            return None;
        },
    };
    let (tag, at) = match read_u8(buf, at) {
        Some(found) => found,
        None => {
            return None;
        },
    };
    let encoding = match read_encoding(tag) {
        Some(found) => found,
        None => {
            return None;
        },
    };
    let (payload, at) = match read_bytes(buf, at) {
        Some(found) => found,
        None => {
            return None;
        },
    };
    let (broadcast, at) = match read_bool(buf, at) {
        Some(found) => found,
        None => {
            return None;
        },
    };
    Some((SealedEnvelope { length, encoding, payload, broadcast }, at))
}

/// Reads a handshake message at `pos`, and returns it with the place behind it.
fn read_handshake(buf: &[u8], pos: usize) -> (r: Option<(HandshakeMessage, usize)>)
    requires
        pos <= buf@.len(),
    ensures
        match parse_handshake(buf@.skip(pos as int)) {
            Some((v, rest)) => r matches Some((x, end)) && x@ == v && left_at(buf@, rest, end),
            None => r is None,
        },
{
    proof {
        reveal(parse_handshake);
    }
    let (tag, at) = match read_u8(buf, pos) {
        Some(found) => found,
        None => {
            return None;
        },
    };
    let (len, at) = match read_u64(buf, at) {
        Some(found) => found,
        None => {
            return None;
        },
    };
    let (data, at) = match read_bytes(buf, at) {
        Some(found) => found,
        None => {
            return None;
        },
    };
    if len > usize::MAX as u64 {
        None
    } else if tag == 0 {
        Some((HandshakeMessage::Initiator(len as usize, data), at))
    } else if tag == 1 {
        Some((HandshakeMessage::Responder(len as usize, data), at))
    } else {
        None
    }
}

/// Reads a transparent message at `pos`, and returns it with the place behind it.
fn read_transparent(buf: &[u8], pos: usize) -> (r: Option<(TransparentMessage, usize)>)
    requires
        pos <= buf@.len(),
    ensures
        match parse_transparent(buf@.skip(pos as int)) {
            Some((v, rest)) => r matches Some((x, end)) && x@ == v && left_at(buf@, rest, end),
            None => r is None,
        },
{
    proof {
        reveal(parse_transparent);
    }
    let (tag, at) = match read_u8(buf, pos) {
        Some(found) => found,
        None => {
            return None;
        },
    };
    if tag == 0 {
        match read_handshake(buf, at) {
            Some((message, at)) => Some((TransparentMessage::ServerHandshake(message), at)),
            None => None,
        }
    } else if tag == 1 {
        let (public_key, at) = match read_bytes(buf, at) {
            Some(found) => found,
            None => {
                return None;
            },
        };
        match read_handshake(buf, at) {
            Some((message, at)) => Some(
                (TransparentMessage::PeerHandshake { public_key, message }, at),
            ),
            None => None,
        }
    } else {
        None
    }
}

/// Reads an opaque message at `pos`, and returns it with the place behind it.
fn read_opaque(buf: &[u8], pos: usize) -> (r: Option<(OpaqueMessage, usize)>)
    requires
        pos <= buf@.len(),
    ensures
        match parse_opaque(buf@.skip(pos as int)) {
            Some((v, rest)) => r matches Some((x, end)) && x@ == v && left_at(buf@, rest, end),
            None => r is None,
        },
{
    proof {
        reveal(parse_opaque);
    }
    let (tag, at) = match read_u8(buf, pos) {
        Some(found) => found,
        None => {
            return None;
        },
    };
    if tag == 0 {
        match read_envelope(buf, at) {
            Some((envelope, at)) => Some((OpaqueMessage::ServerMessage(envelope), at)),
            None => None,
        }
    } else if tag == 1 {
        let (public_key, at) = match read_bytes(buf, at) {
            Some(found) => found,
            None => {
                return None;
            },
        };
        let (session_id, at) = match read_session(buf, at) {
            Some(found) => found,
            None => {
                return None;
            },
        };
        match read_envelope(buf, at) {
            Some((envelope, at)) => Some(
                (OpaqueMessage::PeerMessage { public_key, session_id, envelope }, at),
            ),
            None => None,
        }
    } else {
        None
    }
}

/// Reads the state of a session at `pos`, and returns it with the place behind it.
fn read_state(buf: &[u8], pos: usize) -> (r: Option<(SessionState, usize)>)
    requires
        pos <= buf@.len(),
    ensures
        match parse_state(buf@.skip(pos as int)) {
            Some((v, rest)) => r matches Some((x, end)) && x@ == v && left_at(buf@, rest, end),
            None => r is None,
        },
{
    proof {
        reveal(parse_state);
    }
    let (id, at) = match read_u128(buf, pos) {
        Some(found) => found,
        None => {
            return None;
        },
    };
    match read_keys(buf, at) {
        Some((all_participants, at)) => Some(
            (SessionState { session_id: SessionId(id), all_participants }, at),
        ),
        None => None,
    }
}

/// Reads the fields of a message of the server channel at `pos`, and returns it with the place behind it.
fn read_server_fields(tag: u8, buf: &[u8], pos: usize) -> (r: Option<(ServerMessage, usize)>)
    requires
        pos <= buf@.len(),
    ensures
        match parse_server_fields(tag, buf@.skip(pos as int)) {
            Some((v, rest)) => r matches Some((x, end)) && x@ == v && left_at(buf@, rest, end),
            None => r is None,
        },
{
    proof {
        reveal(parse_server_fields);
    }
    if tag == 0 {
        let (code, at) = match read_u16(buf, pos) {
            Some(found) => found,
            None => {
                return None;
            },
        };
        match read_text(buf, at) {
            Some((text, at)) => Some((ServerMessage::Error(code, text), at)),
            None => None,
        }
    } else if tag == 1 {
        match read_keys(buf, pos) {
            Some((participant_keys, at)) => Some(
                (ServerMessage::NewSession(SessionRequest { participant_keys }), at),
            ),
            None => None,
        }
    } else if tag == 2 || tag == 4 || tag == 7 {
        match read_state(buf, pos) {
            Some((state, at)) => {
                let message = if tag == 2 {
                    ServerMessage::SessionCreated(state)
                } else if tag == 4 {
                    ServerMessage::SessionReady(state)
                } else {
                    ServerMessage::SessionActive(state)
                };
                Some((message, at))
            },
            None => None,
        }
    } else if tag == 5 {
        let (id, at) = match read_u128(buf, pos) {
            Some(found) => found,
            None => {
                return None;
            },
        };
        match read_bytes(buf, at) {
            Some((peer_key, at)) => Some(
                (ServerMessage::SessionConnection { session_id: SessionId(id), peer_key }, at),
            ),
            None => None,
        }
    } else if tag == 3 || tag == 6 || tag == 8 || tag == 9 {
        match read_u128(buf, pos) {
            Some((id, at)) => {
                let message = if tag == 3 {
                    ServerMessage::SessionReadyNotify(SessionId(id))
                } else if tag == 6 {
                    ServerMessage::SessionActiveNotify(SessionId(id))
                } else if tag == 8 {
                    ServerMessage::CloseSession(SessionId(id))
                } else {
                    ServerMessage::SessionFinished(SessionId(id))
                };
                Some((message, at))
            },
            None => None,
        }
    } else {
        None
    }
}

/// Decodes a frame as a request.
///
/// Succeeds exactly on the frames that are the encoding of a message, with
/// that message, and fails with `DecodeError` on every other.
pub fn decode_request(frame: &[u8]) -> (r: Result<RequestMessage, ClientError>)
    ensures
        match r {
            Ok(found) => frame@ == wire_message(found@) && frame@.len() <= MAX_FRAME_LENGTH,
            Err(e) => e@ == ErrorView::DecodeError && !is_frame(frame@),
        },
        match decoded_message(frame@) {
            Some(message) => r matches Ok(found) && found@ == message,
            None => r is Err,
        },
{
    proof {
        if decoded_message(frame@) is Some {
            law_decoding_inverts_encoding(frame@, decoded_message(frame@)->Some_0);
        } else {
            law_decoding_inverts_encoding(frame@, arbitrary());
        }
    }
    if frame.len() > MAX_FRAME_LENGTH {
        return Err(ClientError::DecodeError);
    }
    assert(frame@.skip(0) =~= frame@);
    let (tag, at) = match read_u8(frame, 0) {
        Some(found) => found,
        None => {
            return Err(ClientError::DecodeError);
        },
    };
    let (message, end) = if tag == 0 {
        match read_transparent(frame, at) {
            Some((inner, end)) => (RequestMessage::Transparent(inner), end),
            None => {
                return Err(ClientError::DecodeError);
            },
        }
    } else if tag == 1 {
        match read_opaque(frame, at) {
            Some((inner, end)) => (RequestMessage::Opaque(inner), end),
            None => {
                return Err(ClientError::DecodeError);
            },
        }
    } else {
        return Err(ClientError::DecodeError);
    };
    if end == frame.len() {
        Ok(message)
    } else {
        Err(ClientError::DecodeError)
    }
}

/// Decodes a frame as a response.
///
/// Succeeds exactly on the frames that are the encoding of a message, with
/// that message, and fails with `DecodeError` on every other.
pub fn decode_response(frame: &[u8]) -> (r: Result<ResponseMessage, ClientError>)
    ensures
        match r {
            Ok(found) => frame@ == wire_message(found@) && frame@.len() <= MAX_FRAME_LENGTH,
            Err(e) => e@ == ErrorView::DecodeError && !is_frame(frame@),
        },
        match decoded_message(frame@) {
            Some(message) => r matches Ok(found) && found@ == message,
            None => r is Err,
        },
{
    proof {
        if decoded_message(frame@) is Some {
            law_decoding_inverts_encoding(frame@, decoded_message(frame@)->Some_0);
        } else {
            law_decoding_inverts_encoding(frame@, arbitrary());
        }
    }
    if frame.len() > MAX_FRAME_LENGTH {
        return Err(ClientError::DecodeError);
    }
    assert(frame@.skip(0) =~= frame@);
    let (tag, at) = match read_u8(frame, 0) {
        Some(found) => found,
        None => {
            return Err(ClientError::DecodeError);
        },
    };
    let (message, end) = if tag == 0 {
        match read_transparent(frame, at) {
            Some((inner, end)) => (ResponseMessage::Transparent(inner), end),
            None => {
                return Err(ClientError::DecodeError);
            },
        }
    } else if tag == 1 {
        match read_opaque(frame, at) {
            Some((inner, end)) => (ResponseMessage::Opaque(inner), end),
            None => {
                return Err(ClientError::DecodeError);
            },
        }
    } else {
        return Err(ClientError::DecodeError);
    };
    if end == frame.len() {
        Ok(message)
    } else {
        Err(ClientError::DecodeError)
    }
}

/// Decodes the plaintext of an envelope as a message of the server channel.
///
/// Succeeds exactly on the plaintexts that are the encoding of a message,
/// with that message, and fails with `DecodeError` on every other.
pub fn decode_server_message(plaintext: &[u8]) -> (r: Result<ServerMessage, ClientError>)
    ensures
        match r {
            Ok(found) => plaintext@ == wire_server_message(found@),
            Err(e) => e@ == ErrorView::DecodeError && !is_server_plaintext(plaintext@),
        },
        match decoded_server_message(plaintext@) {
            Some(message) => r matches Ok(found) && found@ == message,
            None => r is Err,
        },
{
    proof {
        if decoded_server_message(plaintext@) is Some {
            law_server_decoding_inverts_encoding(
                plaintext@,
                decoded_server_message(plaintext@)->Some_0,
            );
        } else {
            law_server_decoding_inverts_encoding(plaintext@, arbitrary());
        }
    }
    assert(plaintext@.skip(0) =~= plaintext@);
    let (tag, at) = match read_u8(plaintext, 0) {
        Some(found) => found,
        None => {
            return Err(ClientError::DecodeError);
        },
    };
    match read_server_fields(tag, plaintext, at) {
        Some((message, end)) => {
            if end == plaintext.len() {
                Ok(message)
            } else {
                Err(ClientError::DecodeError)
            }
        },
        None => Err(ClientError::DecodeError),
    }
}

} // verus!
