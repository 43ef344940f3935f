//! The wire format of the framed messages, as mathematics.
//!
//! Every message has one encoding, a sequence of bytes made of tags,
//! little-endian integers and byte strings behind their lengths. A frame is
//! read from its first byte on, and is a message only if nothing is left
//! over.

use vstd::prelude::*;
use vstd::bytes::{
    lemma_auto_spec_u128_to_from_le_bytes, lemma_auto_spec_u16_to_from_le_bytes,
    lemma_auto_spec_u32_to_from_le_bytes, lemma_auto_spec_u64_to_from_le_bytes,
    spec_u128_from_le_bytes, spec_u128_to_le_bytes, spec_u16_from_le_bytes,
    spec_u16_to_le_bytes, spec_u32_from_le_bytes, spec_u32_to_le_bytes, spec_u64_from_le_bytes,
    spec_u64_to_le_bytes,
};
use vstd::utf8::{
    decode_utf8, decode_utf8_encode_utf8, encode_utf8, encode_utf8_decode_utf8,
    encode_utf8_valid_utf8, valid_utf8,
};
use crate::protocol::{
    Encoding, EnvelopeView, HandshakeView, MessageView, OpaqueView, ServerMessageView, SessionId,
    SessionStateView, TransparentView, MAX_FRAME_LENGTH,
};

verus! {

// ---------------------------------------------------------------- integers

/// One byte, read from the front.
pub open spec fn take_u8(s: Seq<u8>) -> Option<(u8, Seq<u8>)> {
    if s.len() >= 1 {
        Some((s[0], s.skip(1)))
    } else {
        None
    }
}

/// A 16-bit integer, read from the front.
pub open spec fn take_u16(s: Seq<u8>) -> Option<(u16, Seq<u8>)> {
    if s.len() >= 2 {
        Some((spec_u16_from_le_bytes(s.take(2)), s.skip(2)))
    } else {
        None
    }
}

/// A 32-bit integer, read from the front.
pub open spec fn take_u32(s: Seq<u8>) -> Option<(u32, Seq<u8>)> {
    if s.len() >= 4 {
        Some((spec_u32_from_le_bytes(s.take(4)), s.skip(4)))
    } else {
        None
    }
}

/// A 64-bit integer, read from the front.
pub open spec fn take_u64(s: Seq<u8>) -> Option<(u64, Seq<u8>)> {
    if s.len() >= 8 {
        Some((spec_u64_from_le_bytes(s.take(8)), s.skip(8)))
    } else {
        None
    }
}

/// A 128-bit integer, read from the front.
pub open spec fn take_u128(s: Seq<u8>) -> Option<(u128, Seq<u8>)> {
    if s.len() >= 16 {
        Some((spec_u128_from_le_bytes(s.take(16)), s.skip(16)))
    } else {
        None
    }
}

/// Reading the encoding of a byte, with anything behind it, gives it back and
/// leaves what was behind it.
pub proof fn lemma_take_u8(x: u8, rest: Seq<u8>)
    ensures
        take_u8(seq![x] + rest) == Some((x, rest)),
{
    assert((seq![x] + rest).skip(1) =~= rest);
}

/// Reading the encoding of a 16-bit integer, with anything behind it, gives it back and
/// leaves what was behind it.
pub proof fn lemma_take_u16(x: u16, rest: Seq<u8>)
    ensures
        spec_u16_to_le_bytes(x).len() == 2,
        take_u16(spec_u16_to_le_bytes(x) + rest) == Some((x, rest)),
{
    lemma_auto_spec_u16_to_from_le_bytes();
    let b = spec_u16_to_le_bytes(x);
    assert((b + rest).take(2) =~= b);
    assert((b + rest).skip(2) =~= rest);
}

/// Reading the encoding of a 32-bit integer, with anything behind it, gives it back and
/// leaves what was behind it.
pub proof fn lemma_take_u32(x: u32, rest: Seq<u8>)
    ensures
        spec_u32_to_le_bytes(x).len() == 4,
        take_u32(spec_u32_to_le_bytes(x) + rest) == Some((x, rest)),
{
    lemma_auto_spec_u32_to_from_le_bytes();
    let b = spec_u32_to_le_bytes(x);
    assert((b + rest).take(4) =~= b);
    assert((b + rest).skip(4) =~= rest);
}

/// Reading the encoding of a 64-bit integer, with anything behind it, gives it back and
/// leaves what was behind it.
pub proof fn lemma_take_u64(x: u64, rest: Seq<u8>)
    ensures
        spec_u64_to_le_bytes(x).len() == 8,
        take_u64(spec_u64_to_le_bytes(x) + rest) == Some((x, rest)),
{
    lemma_auto_spec_u64_to_from_le_bytes();
    let b = spec_u64_to_le_bytes(x);
    assert((b + rest).take(8) =~= b);
    assert((b + rest).skip(8) =~= rest);
}

/// Reading the encoding of a 128-bit integer, with anything behind it, gives it back and
/// leaves what was behind it.
pub proof fn lemma_take_u128(x: u128, rest: Seq<u8>)
    ensures
        spec_u128_to_le_bytes(x).len() == 16,
        take_u128(spec_u128_to_le_bytes(x) + rest) == Some((x, rest)),
{
    lemma_auto_spec_u128_to_from_le_bytes();
    let b = spec_u128_to_le_bytes(x);
    assert((b + rest).take(16) =~= b);
    assert((b + rest).skip(16) =~= rest);
}

// ------------------------------------------------------------ byte strings

/// A byte string behind its length, which is written in 32 bits.
pub open spec fn put_bytes(b: Seq<u8>) -> Seq<u8> {
    spec_u32_to_le_bytes(b.len() as u32) + b
}

/// A byte string behind its length, read from the front.
pub open spec fn take_bytes(s: Seq<u8>) -> Option<(Seq<u8>, Seq<u8>)> {
    match take_u32(s) {
        Some((n, rest)) => if rest.len() >= n {
            Some((rest.take(n as int), rest.skip(n as int)))
        } else {
            None
        },
        None => None,
    }
}

/// Reading the encoding of a byte string, with anything behind it, gives it back and
/// leaves what was behind it.
pub proof fn lemma_take_bytes(b: Seq<u8>, rest: Seq<u8>)
    requires
        b.len() <= u32::MAX,
    ensures
        put_bytes(b).len() == 4 + b.len(),
        take_bytes(put_bytes(b) + rest) == Some((b, rest)),
{
    let n = b.len() as u32;
    lemma_take_u32(n, b + rest);
    assert(put_bytes(b) + rest =~= spec_u32_to_le_bytes(n) + (b + rest));
    assert((b + rest).take(n as int) =~= b);
    assert((b + rest).skip(n as int) =~= rest);
}

/// A text: the byte string of its UTF-8 encoding.
pub open spec fn put_text(t: Seq<char>) -> Seq<u8> {
    put_bytes(encode_utf8(t))
}

/// A text, read from the front.
pub open spec fn take_text(s: Seq<u8>) -> Option<(Seq<char>, Seq<u8>)> {
    match take_bytes(s) {
        Some((b, rest)) => if valid_utf8(b) {
            Some((decode_utf8(b), rest))
        } else {
            None
        },
        None => None,
    }
}

/// Reading the encoding of a text, with anything behind it, gives it back and
/// leaves what was behind it.
pub proof fn lemma_take_text(t: Seq<char>, rest: Seq<u8>)
    requires
        encode_utf8(t).len() <= u32::MAX,
    ensures
        put_text(t).len() == 4 + encode_utf8(t).len(),
        take_text(put_text(t) + rest) == Some((t, rest)),
{
    lemma_take_bytes(encode_utf8(t), rest);
    encode_utf8_valid_utf8(t);
    encode_utf8_decode_utf8(t);
}

/// The byte strings of a list, one after the other.
pub open spec fn put_each(keys: Seq<Seq<u8>>) -> Seq<u8>
    decreases keys.len(),
{
    if keys.len() == 0 {
        Seq::<u8>::empty()
    } else {
        put_each(keys.drop_last()) + put_bytes(keys.last())
    }
}

/// A list of byte strings behind the number of its items, which is written
/// in 32 bits.
pub open spec fn put_keys(keys: Seq<Seq<u8>>) -> Seq<u8> {
    spec_u32_to_le_bytes(keys.len() as u32) + put_each(keys)
}

/// `n` byte strings, read from the front.
pub open spec fn take_each(s: Seq<u8>, n: nat) -> Option<(Seq<Seq<u8>>, Seq<u8>)>
    decreases n,
{
    if n == 0 {
        Some((Seq::<Seq<u8>>::empty(), s))
    } else {
        match take_bytes(s) {
            Some((key, rest)) => match take_each(rest, (n - 1) as nat) {
                Some((keys, rest)) => Some((seq![key] + keys, rest)),
                None => None,
            },
            None => None,
        }
    }
}

/// A list of byte strings, read from the front.
pub open spec fn take_keys(s: Seq<u8>) -> Option<(Seq<Seq<u8>>, Seq<u8>)> {
    match take_u32(s) {
        Some((n, rest)) => take_each(rest, n as nat),
        None => None,
    }
}

/// The encoding of a list begins with that of its first item.
pub proof fn lemma_put_each_front(keys: Seq<Seq<u8>>)
    requires
        keys.len() > 0,
    ensures
        put_each(keys) == put_bytes(keys[0]) + put_each(keys.drop_first()),
    decreases keys.len(),
{
    if keys.len() == 1 {
        assert(keys.drop_last() =~= Seq::<Seq<u8>>::empty());
        assert(keys.drop_first() =~= Seq::<Seq<u8>>::empty());
        assert(put_each(keys.drop_last()) =~= Seq::<u8>::empty());
        assert(put_each(keys) =~= put_bytes(keys[0]) + put_each(keys.drop_first()));
    } else {
        lemma_put_each_front(keys.drop_last());
        assert(keys.drop_last().drop_first() =~= keys.drop_first().drop_last());
        assert(keys.drop_first().last() == keys.last());
        assert(keys.drop_last()[0] == keys[0]);
        assert(put_each(keys) =~= put_bytes(keys[0]) + put_each(keys.drop_first()));
    }
}

/// The encoding of a list is at least as long as that of each item.
pub proof fn lemma_put_each_len(keys: Seq<Seq<u8>>, i: int)
    requires
        0 <= i < keys.len(),
    ensures
        put_each(keys).len() >= 4 + keys[i].len(),
        put_each(keys).len() >= 4 * keys.len(),
    decreases keys.len(),
{
    lemma_auto_spec_u32_to_from_le_bytes();
    if i < keys.len() - 1 {
        lemma_put_each_len(keys.drop_last(), i);
    } else if keys.len() > 1 {
        lemma_put_each_len(keys.drop_last(), 0);
    }
}

/// Reading the encoding of the items of a list, with anything behind it, gives it back and
/// leaves what was behind it.
pub proof fn lemma_take_each(keys: Seq<Seq<u8>>, rest: Seq<u8>)
    requires
        put_each(keys).len() <= u32::MAX,
    ensures
        take_each(put_each(keys) + rest, keys.len()) == Some((keys, rest)),
    decreases keys.len(),
{
    if keys.len() == 0 {
        assert(put_each(keys) + rest =~= rest);
        assert(keys =~= Seq::<Seq<u8>>::empty());
    } else {
        let tail = keys.drop_first();
        lemma_put_each_front(keys);
        lemma_put_each_len(keys, 0);
        lemma_take_bytes(keys[0], put_each(tail) + rest);
        assert(put_each(keys) + rest =~= put_bytes(keys[0]) + (put_each(tail) + rest));
        lemma_take_each(tail, rest);
        assert(seq![keys[0]] + tail =~= keys);
    }
}

/// Reading the encoding of a list of byte strings, with anything behind it, gives it back and
/// leaves what was behind it.
pub proof fn lemma_take_keys(keys: Seq<Seq<u8>>, rest: Seq<u8>)
    requires
        put_keys(keys).len() <= u32::MAX,
    ensures
        put_keys(keys).len() == 4 + put_each(keys).len(),
        take_keys(put_keys(keys) + rest) == Some((keys, rest)),
{
    lemma_auto_spec_u32_to_from_le_bytes();
    if keys.len() > 0 {
        lemma_put_each_len(keys, 0);
    }
    let n = keys.len() as u32;
    lemma_take_u32(n, put_each(keys) + rest);
    assert(put_keys(keys) + rest =~= spec_u32_to_le_bytes(n) + (put_each(keys) + rest));
    lemma_take_each(keys, rest);
}

// ------------------------------------------------------------------- flags

/// A truth value: one byte, `1` for true and `0` for false.
pub open spec fn put_bool(b: bool) -> Seq<u8> {
    seq![if b { 1u8 } else { 0u8 }]
}

/// A truth value, read from the front.
pub open spec fn take_bool(s: Seq<u8>) -> Option<(bool, Seq<u8>)> {
    match take_u8(s) {
        Some((tag, rest)) => if tag == 0 {
            Some((false, rest))
        } else if tag == 1 {
            Some((true, rest))
        } else {
            None
        },
        None => None,
    }
}

/// Reading the encoding of a truth value, with anything behind it, gives it back and
/// leaves what was behind it.
pub proof fn lemma_take_bool(b: bool, rest: Seq<u8>)
    ensures
        take_bool(put_bool(b) + rest) == Some((b, rest)),
{
    lemma_take_u8(if b { 1u8 } else { 0u8 }, rest);
}

/// The byte that stands for an encoding.
pub open spec fn encoding_tag(encoding: Encoding) -> u8 {
    match encoding {
        Encoding::Noop => 0,
        Encoding::Blob => 1,
        Encoding::Json => 2,
    }
}

/// The encoding that a byte stands for, if any.
pub open spec fn tag_encoding(tag: u8) -> Option<Encoding> {
    if tag == 0 {
        Some(Encoding::Noop)
    } else if tag == 1 {
        Some(Encoding::Blob)
    } else if tag == 2 {
        Some(Encoding::Json)
    } else {
        None
    }
}

/// The session that a message belongs to, if any: a flag, and the
/// identifier behind it where the flag is set.
pub open spec fn put_session(session_id: Option<SessionId>) -> Seq<u8> {
    match session_id {
        None => seq![0u8],
        Some(id) => seq![1u8] + spec_u128_to_le_bytes(id.0),
    }
}

/// An optional session identifier, read from the front.
pub open spec fn take_session(s: Seq<u8>) -> Option<(Option<SessionId>, Seq<u8>)> {
    match take_u8(s) {
        Some((tag, rest)) => if tag == 0 {
            Some((None, rest))
        } else if tag == 1 {
            match take_u128(rest) {
                Some((id, rest)) => Some((Some(SessionId(id)), rest)),
                None => None,
            }
        } else {
            None
        },
        None => None,
    }
}

/// Reading the encoding of an optional session, with anything behind it, gives it back and
/// leaves what was behind it.
pub proof fn lemma_take_session(session_id: Option<SessionId>, rest: Seq<u8>)
    ensures
        1 <= put_session(session_id).len() <= 17,
        take_session(put_session(session_id) + rest) == Some((session_id, rest)),
{
    match session_id {
        None => {
            lemma_take_u8(0u8, rest);
        },
        Some(id) => {
            lemma_take_u8(1u8, spec_u128_to_le_bytes(id.0) + rest);
            lemma_take_u128(id.0, rest);
            assert(put_session(session_id) + rest =~= seq![1u8] + (spec_u128_to_le_bytes(id.0)
                + rest));
        },
    }
}

// --------------------------------------------------------------- envelopes

/// The encoding of an envelope: its length, its encoding, its payload and
/// its broadcast flag.
pub open spec fn wire_envelope(e: EnvelopeView) -> Seq<u8> {
    spec_u32_to_le_bytes(e.length) + seq![encoding_tag(e.encoding)] + put_bytes(e.payload)
        + put_bool(e.broadcast)
}

/// An envelope, read from the front.
#[verifier::opaque]
pub open spec fn parse_envelope(s: Seq<u8>) -> Option<(EnvelopeView, Seq<u8>)> {
    match take_u32(s) {
        Some((length, rest)) => match take_u8(rest) {
            Some((tag, rest)) => match tag_encoding(tag) {
                Some(encoding) => match take_bytes(rest) {
                    Some((payload, rest)) => match take_bool(rest) {
                        Some((broadcast, rest)) => Some(
                            (EnvelopeView { length, encoding, payload, broadcast }, rest),
                        ),
                        None => None,
                    },
                    None => None,
                },
                None => None,
            },
            None => None,
        },
        None => None,
    }
}

/// Reading the encoding of an envelope, with anything behind it, gives it back and
/// leaves what was behind it.
pub proof fn lemma_parse_envelope(e: EnvelopeView, rest: Seq<u8>)
    requires
        wire_envelope(e).len() <= u32::MAX,
    ensures
        wire_envelope(e).len() == 10 + e.payload.len(),
        parse_envelope(wire_envelope(e) + rest) == Some((e, rest)),
{
    reveal(parse_envelope);
    let tag = encoding_tag(e.encoding);
    let r3 = put_bool(e.broadcast) + rest;
    let r2 = put_bytes(e.payload) + r3;
    let r1 = seq![tag] + r2;
    lemma_auto_spec_u32_to_from_le_bytes();
    lemma_take_u32(e.length, r1);
    lemma_take_u8(tag, r2);
    lemma_take_bytes(e.payload, r3);
    lemma_take_bool(e.broadcast, rest);
    assert(wire_envelope(e) + rest =~= spec_u32_to_le_bytes(e.length) + r1);
}

// -------------------------------------------------------------- handshakes

/// The encoding of a handshake message: the side that wrote it, the number
/// of bytes in use, written in 64 bits, and the buffer.
pub open spec fn wire_handshake(h: HandshakeView) -> Seq<u8> {
    match h {
        HandshakeView::Initiator(len, buf) => seq![0u8] + spec_u64_to_le_bytes(len as u64)
            + put_bytes(buf),
        HandshakeView::Responder(len, buf) => seq![1u8] + spec_u64_to_le_bytes(len as u64)
            + put_bytes(buf),
    }
}

/// A handshake message, read from the front.
#[verifier::opaque]
pub open spec fn parse_handshake(s: Seq<u8>) -> Option<(HandshakeView, Seq<u8>)> {
    match take_u8(s) {
        Some((tag, rest)) => match take_u64(rest) {
            Some((len, rest)) => match take_bytes(rest) {
                Some((buf, rest)) => if len > usize::MAX {
                    None
                } else if tag == 0 {
                    Some((HandshakeView::Initiator(len as usize, buf), rest))
                } else if tag == 1 {
                    Some((HandshakeView::Responder(len as usize, buf), rest))
                } else {
                    None
                },
                None => None,
            },
            None => None,
        },
        None => None,
    }
}

/// Reading the encoding of a handshake message, with anything behind it, gives it back and
/// leaves what was behind it.
pub proof fn lemma_parse_handshake(h: HandshakeView, rest: Seq<u8>)
    requires
        wire_handshake(h).len() <= u32::MAX,
    ensures
        parse_handshake(wire_handshake(h) + rest) == Some((h, rest)),
{
    reveal(parse_handshake);
    lemma_auto_spec_u64_to_from_le_bytes();
    match h {
        HandshakeView::Initiator(len, buf) => {
            let r2 = put_bytes(buf) + rest;
            let r1 = spec_u64_to_le_bytes(len as u64) + r2;
            lemma_take_u8(0u8, r1);
            lemma_take_u64(len as u64, r2);
            lemma_take_bytes(buf, rest);
            assert(wire_handshake(h) + rest =~= seq![0u8] + r1);
        },
        HandshakeView::Responder(len, buf) => {
            let r2 = put_bytes(buf) + rest;
            let r1 = spec_u64_to_le_bytes(len as u64) + r2;
            lemma_take_u8(1u8, r1);
            lemma_take_u64(len as u64, r2);
            lemma_take_bytes(buf, rest);
            assert(wire_handshake(h) + rest =~= seq![1u8] + r1);
        },
    }
}

// ---------------------------------------------------------------- messages

/// The encoding of a transparent message.
pub open spec fn wire_transparent(t: TransparentView) -> Seq<u8> {
    match t {
        TransparentView::ServerHandshake(message) => seq![0u8] + wire_handshake(message),
        TransparentView::PeerHandshake { public_key, message } => seq![1u8] + put_bytes(
            public_key,
        ) + wire_handshake(message),
    }
}

/// A transparent message, read from the front.
#[verifier::opaque]
pub open spec fn parse_transparent(s: Seq<u8>) -> Option<(TransparentView, Seq<u8>)> {
    match take_u8(s) {
        Some((tag, rest)) => if tag == 0 {
            match parse_handshake(rest) {
                Some((message, rest)) => Some((TransparentView::ServerHandshake(message), rest)),
                None => None,
            }
        } else if tag == 1 {
            match take_bytes(rest) {
                Some((public_key, rest)) => match parse_handshake(rest) {
                    Some((message, rest)) => Some(
                        (TransparentView::PeerHandshake { public_key, message }, rest),
                    ),
                    None => None,
                },
                None => None,
            }
        } else {
            None
        },
        None => None,
    }
}

/// Reading the encoding of a transparent message, with anything behind it, gives it back and
/// leaves what was behind it.
pub proof fn lemma_parse_transparent(t: TransparentView, rest: Seq<u8>)
    requires
        wire_transparent(t).len() <= u32::MAX,
    ensures
        parse_transparent(wire_transparent(t) + rest) == Some((t, rest)),
{
    reveal(parse_transparent);
    match t {
        TransparentView::ServerHandshake(message) => {
            lemma_take_u8(0u8, wire_handshake(message) + rest);
            lemma_parse_handshake(message, rest);
            assert(wire_transparent(t) + rest =~= seq![0u8] + (wire_handshake(message) + rest));
        },
        TransparentView::PeerHandshake { public_key, message } => {
            let r2 = wire_handshake(message) + rest;
            let r1 = put_bytes(public_key) + r2;
            lemma_take_u8(1u8, r1);
            lemma_take_bytes(public_key, r2);
            lemma_parse_handshake(message, rest);
            assert(wire_transparent(t) + rest =~= seq![1u8] + r1);
        },
    }
}

/// The encoding of an opaque message.
pub open spec fn wire_opaque(o: OpaqueView) -> Seq<u8> {
    match o {
        OpaqueView::ServerMessage(envelope) => seq![0u8] + wire_envelope(envelope),
        OpaqueView::PeerMessage { public_key, session_id, envelope } => seq![1u8] + put_bytes(
            public_key,
        ) + put_session(session_id) + wire_envelope(envelope),
    }
}

/// An opaque message, read from the front.
#[verifier::opaque]
pub open spec fn parse_opaque(s: Seq<u8>) -> Option<(OpaqueView, Seq<u8>)> {
    match take_u8(s) {
        Some((tag, rest)) => if tag == 0 {
            match parse_envelope(rest) {
                Some((envelope, rest)) => Some((OpaqueView::ServerMessage(envelope), rest)),
                None => None,
            }
        } else if tag == 1 {
            match take_bytes(rest) {
                Some((public_key, rest)) => match take_session(rest) {
                    Some((session_id, rest)) => match parse_envelope(rest) {
                        Some((envelope, rest)) => Some(
                            (OpaqueView::PeerMessage { public_key, session_id, envelope }, rest),
                        ),
                        None => None,
                    },
                    None => None,
                },
                None => None,
            }
        } else {
            None
        },
        None => None,
    }
}

/// The round trip of an opaque message that is addressed to a peer.
proof fn lemma_parse_peer_message(
    public_key: Seq<u8>,
    session_id: Option<SessionId>,
    envelope: EnvelopeView,
    rest: Seq<u8>,
)
    requires
        public_key.len() <= u32::MAX,
        wire_envelope(envelope).len() <= u32::MAX,
    ensures
        parse_opaque(
            seq![1u8] + put_bytes(public_key) + put_session(session_id) + wire_envelope(envelope)
                + rest,
        ) == Some((OpaqueView::PeerMessage { public_key, session_id, envelope }, rest)),
{
    reveal(parse_opaque);
    let r3 = wire_envelope(envelope) + rest;
    let r2 = put_session(session_id) + r3;
    let r1 = put_bytes(public_key) + r2;
    let all = seq![1u8] + put_bytes(public_key) + put_session(session_id) + wire_envelope(envelope)
        + rest;
    assert(all =~= seq![1u8] + r1);
    lemma_take_u8(1u8, r1);
    assert(take_u8(all) == Some((1u8, r1)));
    lemma_take_bytes(public_key, r2);
    assert(take_bytes(r1) == Some((public_key, r2)));
    lemma_take_session(session_id, r3);
    assert(take_session(r2) == Some((session_id, r3)));
    lemma_parse_envelope(envelope, rest);
    assert(parse_envelope(r3) == Some((envelope, rest)));
}

/// Reading the encoding of an opaque message, with anything behind it, gives it back and
/// leaves what was behind it.
pub proof fn lemma_parse_opaque(o: OpaqueView, rest: Seq<u8>)
    requires
        wire_opaque(o).len() <= u32::MAX,
    ensures
        parse_opaque(wire_opaque(o) + rest) == Some((o, rest)),
{
    reveal(parse_opaque);
    match o {
        OpaqueView::ServerMessage(envelope) => {
            let r1 = wire_envelope(envelope) + rest;
            assert(wire_opaque(o) + rest =~= seq![0u8] + r1);
            lemma_take_u8(0u8, r1);
            lemma_parse_envelope(envelope, rest);
        },
        OpaqueView::PeerMessage { public_key, session_id, envelope } => {
            lemma_auto_spec_u32_to_from_le_bytes();
            assert(wire_opaque(o).len() == 1 + put_bytes(public_key).len() + put_session(
                session_id,
            ).len() + wire_envelope(envelope).len());
            assert(put_bytes(public_key).len() == 4 + public_key.len());
            lemma_parse_peer_message(public_key, session_id, envelope, rest);
        },
    }
}

/// The encoding of a framed message.
pub open spec fn wire_message(m: MessageView) -> Seq<u8> {
    match m {
        MessageView::Transparent(message) => seq![0u8] + wire_transparent(message),
        MessageView::Opaque(message) => seq![1u8] + wire_opaque(message),
    }
}

/// A framed message, read from the front.
pub open spec fn parse_message(s: Seq<u8>) -> Option<(MessageView, Seq<u8>)> {
    match take_u8(s) {
        Some((tag, rest)) => if tag == 0 {
            match parse_transparent(rest) {
                Some((message, rest)) => Some((MessageView::Transparent(message), rest)),
                None => None,
            }
        } else if tag == 1 {
            match parse_opaque(rest) {
                Some((message, rest)) => Some((MessageView::Opaque(message), rest)),
                None => None,
            }
        } else {
            None
        },
        None => None,
    }
}

/// Reading the encoding of a framed message, with anything behind it, gives it back and
/// leaves what was behind it.
pub proof fn lemma_parse_message(m: MessageView, rest: Seq<u8>)
    requires
        wire_message(m).len() <= u32::MAX,
    ensures
        parse_message(wire_message(m) + rest) == Some((m, rest)),
{
    match m {
        MessageView::Transparent(message) => {
            lemma_take_u8(0u8, wire_transparent(message) + rest);
            lemma_parse_transparent(message, rest);
            assert(wire_message(m) + rest =~= seq![0u8] + (wire_transparent(message) + rest));
        },
        MessageView::Opaque(message) => {
            lemma_take_u8(1u8, wire_opaque(message) + rest);
            lemma_parse_opaque(message, rest);
            assert(wire_message(m) + rest =~= seq![1u8] + (wire_opaque(message) + rest));
        },
    }
}

/// The message that a frame holds: the frame is within the largest length,
/// and reading it as a message leaves nothing over.
pub open spec fn decoded_message(frame: Seq<u8>) -> Option<MessageView> {
    if frame.len() > MAX_FRAME_LENGTH {
        None
    } else {
        match parse_message(frame) {
            Some((message, rest)) => if rest.len() == 0 {
                Some(message)
            } else {
                None
            },
            None => None,
        }
    }
}

/// Decoding undoes encoding: the encoding of a message, where it fits a
/// frame, decodes to that message.
pub proof fn law_message_round_trip(m: MessageView)
    requires
        wire_message(m).len() <= MAX_FRAME_LENGTH,
    ensures
        decoded_message(wire_message(m)) == Some(m),
{
    lemma_parse_message(m, Seq::<u8>::empty());
    assert(wire_message(m) + Seq::<u8>::empty() =~= wire_message(m));
}

// --------------------------------------------------------- server messages

/// The encoding of the state of a session: its identifier and the keys of
/// its participants.
pub open spec fn wire_state(state: SessionStateView) -> Seq<u8> {
    spec_u128_to_le_bytes(state.session_id.0) + put_keys(state.all_participants)
}

/// The state of a session, read from the front.
#[verifier::opaque]
pub open spec fn parse_state(s: Seq<u8>) -> Option<(SessionStateView, Seq<u8>)> {
    match take_u128(s) {
        Some((id, rest)) => match take_keys(rest) {
            Some((all_participants, rest)) => Some(
                (SessionStateView { session_id: SessionId(id), all_participants }, rest),
            ),
            None => None,
        },
        None => None,
    }
}

/// Reading the encoding of the state of a session, with anything behind it, gives it back and
/// leaves what was behind it.
pub proof fn lemma_parse_state(state: SessionStateView, rest: Seq<u8>)
    requires
        wire_state(state).len() <= u32::MAX,
    ensures
        parse_state(wire_state(state) + rest) == Some((state, rest)),
{
    reveal(parse_state);
    let r1 = put_keys(state.all_participants) + rest;
    lemma_take_u128(state.session_id.0, r1);
    lemma_take_keys(state.all_participants, rest);
    assert(wire_state(state) + rest =~= spec_u128_to_le_bytes(state.session_id.0) + r1);
}

/// The encoding of a message of the server channel: a tag for the variant,
/// and the fields behind it.
pub open spec fn wire_server_message(m: ServerMessageView) -> Seq<u8> {
    match m {
        ServerMessageView::Error(code, text) => seq![0u8] + spec_u16_to_le_bytes(code) + put_text(
            text,
        ),
        ServerMessageView::NewSession(keys) => seq![1u8] + put_keys(keys),
        ServerMessageView::SessionCreated(state) => seq![2u8] + wire_state(state),
        ServerMessageView::SessionReadyNotify(id) => seq![3u8] + spec_u128_to_le_bytes(id.0),
        ServerMessageView::SessionReady(state) => seq![4u8] + wire_state(state),
        ServerMessageView::SessionConnection { session_id, peer_key } => seq![5u8]
            + spec_u128_to_le_bytes(session_id.0) + put_bytes(peer_key),
        ServerMessageView::SessionActiveNotify(id) => seq![6u8] + spec_u128_to_le_bytes(id.0),
        ServerMessageView::SessionActive(state) => seq![7u8] + wire_state(state),
        ServerMessageView::CloseSession(id) => seq![8u8] + spec_u128_to_le_bytes(id.0),
        ServerMessageView::SessionFinished(id) => seq![9u8] + spec_u128_to_le_bytes(id.0),
    }
}

/// The fields of a message of the server channel, read from the front, for
/// the variant that a tag names.
#[verifier::opaque]
pub open spec fn parse_server_fields(tag: u8, s: Seq<u8>) -> Option<(ServerMessageView, Seq<u8>)> {
    if tag == 0 {
        match take_u16(s) {
            Some((code, rest)) => match take_text(rest) {
                Some((text, rest)) => Some((ServerMessageView::Error(code, text), rest)),
                None => None,
            },
            None => None,
        }
    } else if tag == 1 {
        match take_keys(s) {
            Some((keys, rest)) => Some((ServerMessageView::NewSession(keys), rest)),
            None => None,
        }
    } else if tag == 2 || tag == 4 || tag == 7 {
        match parse_state(s) {
            Some((state, rest)) => Some(
                (
                    if tag == 2 {
                        ServerMessageView::SessionCreated(state)
                    } else if tag == 4 {
                        ServerMessageView::SessionReady(state)
                    } else {
                        ServerMessageView::SessionActive(state)
                    },
                    rest,
                ),
            ),
            None => None,
        }
    } else if tag == 5 {
        match take_u128(s) {
            Some((id, rest)) => match take_bytes(rest) {
                Some((peer_key, rest)) => Some(
                    (
                        ServerMessageView::SessionConnection {
                            session_id: SessionId(id),
                            peer_key,
                        },
                        rest,
                    ),
                ),
                None => None,
            },
            None => None,
        }
    } else if tag == 3 || tag == 6 || tag == 8 || tag == 9 {
        match take_u128(s) {
            Some((id, rest)) => Some(
                (
                    if tag == 3 {
                        ServerMessageView::SessionReadyNotify(SessionId(id))
                    } else if tag == 6 {
                        ServerMessageView::SessionActiveNotify(SessionId(id))
                    } else if tag == 8 {
                        ServerMessageView::CloseSession(SessionId(id))
                    } else {
                        ServerMessageView::SessionFinished(SessionId(id))
                    },
                    rest,
                ),
            ),
            None => None,
        }
    } else {
        None
    }
}

/// A message of the server channel, read from the front.
pub open spec fn parse_server_message(s: Seq<u8>) -> Option<(ServerMessageView, Seq<u8>)> {
    match take_u8(s) {
        Some((tag, rest)) => parse_server_fields(tag, rest),
        None => None,
    }
}

/// The round trip of the fields of a server message that holds one
/// identifier.
proof fn lemma_parse_id_fields(tag: u8, id: SessionId, rest: Seq<u8>)
    requires
        tag == 3 || tag == 6 || tag == 8 || tag == 9,
    ensures
        parse_server_message(seq![tag] + spec_u128_to_le_bytes(id.0) + rest) == Some(
            (
                if tag == 3 {
                    ServerMessageView::SessionReadyNotify(id)
                } else if tag == 6 {
                    ServerMessageView::SessionActiveNotify(id)
                } else if tag == 8 {
                    ServerMessageView::CloseSession(id)
                } else {
                    ServerMessageView::SessionFinished(id)
                },
                rest,
            ),
        ),
{
    reveal(parse_server_fields);
    let r1 = spec_u128_to_le_bytes(id.0) + rest;
    assert(seq![tag] + spec_u128_to_le_bytes(id.0) + rest =~= seq![tag] + r1);
    lemma_take_u8(tag, r1);
    lemma_take_u128(id.0, rest);
}

/// The round trip of the fields of a server message that holds the state of
/// a session.
proof fn lemma_parse_state_fields(tag: u8, state: SessionStateView, rest: Seq<u8>)
    requires
        tag == 2 || tag == 4 || tag == 7,
        wire_state(state).len() <= u32::MAX,
    ensures
        parse_server_message(seq![tag] + wire_state(state) + rest) == Some(
            (
                if tag == 2 {
                    ServerMessageView::SessionCreated(state)
                } else if tag == 4 {
                    ServerMessageView::SessionReady(state)
                } else {
                    ServerMessageView::SessionActive(state)
                },
                rest,
            ),
        ),
{
    reveal(parse_server_fields);
    let r1 = wire_state(state) + rest;
    assert(seq![tag] + wire_state(state) + rest =~= seq![tag] + r1);
    lemma_take_u8(tag, r1);
    lemma_parse_state(state, rest);
}

/// Reading the encoding of a message of the server channel, with anything behind it, gives it back and
/// leaves what was behind it.
pub proof fn lemma_parse_server_message(m: ServerMessageView, rest: Seq<u8>)
    requires
        wire_server_message(m).len() <= u32::MAX,
    ensures
        parse_server_message(wire_server_message(m) + rest) == Some((m, rest)),
{
    reveal(parse_server_fields);
    lemma_auto_spec_u32_to_from_le_bytes();
    match m {
        ServerMessageView::Error(code, text) => {
            let r2 = put_text(text) + rest;
            let r1 = spec_u16_to_le_bytes(code) + r2;
            assert(wire_server_message(m) + rest =~= seq![0u8] + r1);
            lemma_take_u8(0u8, r1);
            lemma_take_u16(code, r2);
            lemma_take_text(text, rest);
        },
        ServerMessageView::NewSession(keys) => {
            let r1 = put_keys(keys) + rest;
            assert(wire_server_message(m) + rest =~= seq![1u8] + r1);
            lemma_take_u8(1u8, r1);
            lemma_take_keys(keys, rest);
        },
        ServerMessageView::SessionCreated(state) => {
            lemma_parse_state_fields(2u8, state, rest);
        },
        ServerMessageView::SessionReadyNotify(id) => {
            lemma_parse_id_fields(3u8, id, rest);
        },
        ServerMessageView::SessionReady(state) => {
            lemma_parse_state_fields(4u8, state, rest);
        },
        ServerMessageView::SessionConnection { session_id, peer_key } => {
            let r2 = put_bytes(peer_key) + rest;
            let r1 = spec_u128_to_le_bytes(session_id.0) + r2;
            assert(wire_server_message(m) + rest =~= seq![5u8] + r1);
            lemma_take_u8(5u8, r1);
            lemma_take_u128(session_id.0, r2);
            lemma_take_bytes(peer_key, rest);
        },
        ServerMessageView::SessionActiveNotify(id) => {
            lemma_parse_id_fields(6u8, id, rest);
        },
        ServerMessageView::SessionActive(state) => {
            lemma_parse_state_fields(7u8, state, rest);
        },
        ServerMessageView::CloseSession(id) => {
            lemma_parse_id_fields(8u8, id, rest);
        },
        ServerMessageView::SessionFinished(id) => {
            lemma_parse_id_fields(9u8, id, rest);
        },
    }
}

/// The message of the server channel that a plaintext holds: reading it
/// leaves nothing over.
pub open spec fn decoded_server_message(plaintext: Seq<u8>) -> Option<ServerMessageView> {
    match parse_server_message(plaintext) {
        Some((message, rest)) => if rest.len() == 0 {
            Some(message)
        } else {
            None
        },
        None => None,
    }
}

/// Decoding undoes encoding on the server channel too.
pub proof fn law_server_message_round_trip(m: ServerMessageView)
    requires
        wire_server_message(m).len() <= MAX_FRAME_LENGTH,
    ensures
        decoded_server_message(wire_server_message(m)) == Some(m),
{
    lemma_parse_server_message(m, Seq::<u8>::empty());
    assert(wire_server_message(m) + Seq::<u8>::empty() =~= wire_server_message(m));
}

// ------------------------------------------------- what a reader accepts

/// What reads as a byte is that byte, followed by what is left.
pub proof fn lemma_u8_sound(s: Seq<u8>)
    requires
        take_u8(s) is Some,
    ensures
        s == seq![take_u8(s)->Some_0.0] + take_u8(s)->Some_0.1,
{
    assert(s =~= seq![s[0]] + s.skip(1));
}

/// What reads as a 16-bit integer is its encoding, followed by what is
/// left.
pub proof fn lemma_u16_sound(s: Seq<u8>)
    requires
        take_u16(s) is Some,
    ensures
        s == spec_u16_to_le_bytes(take_u16(s)->Some_0.0) + take_u16(s)->Some_0.1,
{
    lemma_auto_spec_u16_to_from_le_bytes();
    assert(s.take(2).len() == 2);
    assert(s =~= s.take(2) + s.skip(2));
}

/// What reads as a 32-bit integer is its encoding, followed by what is
/// left.
pub proof fn lemma_u32_sound(s: Seq<u8>)
    requires
        take_u32(s) is Some,
    ensures
        s == spec_u32_to_le_bytes(take_u32(s)->Some_0.0) + take_u32(s)->Some_0.1,
{
    lemma_auto_spec_u32_to_from_le_bytes();
    assert(s.take(4).len() == 4);
    assert(s =~= s.take(4) + s.skip(4));
}

/// What reads as a 64-bit integer is its encoding, followed by what is
/// left.
pub proof fn lemma_u64_sound(s: Seq<u8>)
    requires
        take_u64(s) is Some,
    ensures
        s == spec_u64_to_le_bytes(take_u64(s)->Some_0.0) + take_u64(s)->Some_0.1,
{
    lemma_auto_spec_u64_to_from_le_bytes();
    assert(s.take(8).len() == 8);
    assert(s =~= s.take(8) + s.skip(8));
}

/// What reads as a 128-bit integer is its encoding, followed by what is
/// left.
pub proof fn lemma_u128_sound(s: Seq<u8>)
    requires
        take_u128(s) is Some,
    ensures
        s == spec_u128_to_le_bytes(take_u128(s)->Some_0.0) + take_u128(s)->Some_0.1,
{
    lemma_auto_spec_u128_to_from_le_bytes();
    assert(s.take(16).len() == 16);
    assert(s =~= s.take(16) + s.skip(16));
}

/// What reads as a byte string is its encoding, followed by what is left.
pub proof fn lemma_bytes_sound(s: Seq<u8>)
    requires
        take_bytes(s) is Some,
    ensures
        s == put_bytes(take_bytes(s)->Some_0.0) + take_bytes(s)->Some_0.1,
        take_bytes(s)->Some_0.0.len() <= u32::MAX,
{
    lemma_u32_sound(s);
    let (n, rest) = take_u32(s)->Some_0;
    let b = rest.take(n as int);
    assert(b.len() == n);
    assert(rest =~= b + rest.skip(n as int));
    assert(s =~= put_bytes(b) + rest.skip(n as int));
}

/// What reads as a text is its encoding, followed by what is left.
pub proof fn lemma_text_sound(s: Seq<u8>)
    requires
        take_text(s) is Some,
    ensures
        s == put_text(take_text(s)->Some_0.0) + take_text(s)->Some_0.1,
{
    lemma_bytes_sound(s);
    decode_utf8_encode_utf8(take_bytes(s)->Some_0.0);
}

/// What reads as a truth value is its encoding, followed by what is left.
pub proof fn lemma_bool_sound(s: Seq<u8>)
    requires
        take_bool(s) is Some,
    ensures
        s == put_bool(take_bool(s)->Some_0.0) + take_bool(s)->Some_0.1,
{
    lemma_u8_sound(s);
}

/// What reads as an optional session is its encoding, followed by what is
/// left.
pub proof fn lemma_session_sound(s: Seq<u8>)
    requires
        take_session(s) is Some,
    ensures
        s == put_session(take_session(s)->Some_0.0) + take_session(s)->Some_0.1,
{
    lemma_u8_sound(s);
    let (tag, rest) = take_u8(s)->Some_0;
    if tag == 1 {
        lemma_u128_sound(rest);
        let (id, rest2) = take_u128(rest)->Some_0;
        assert(s =~= seq![1u8] + spec_u128_to_le_bytes(id) + rest2);
    }
}

/// What reads as `n` byte strings is their encoding, followed by what is
/// left.
pub proof fn lemma_each_sound(s: Seq<u8>, n: nat)
    requires
        take_each(s, n) is Some,
    ensures
        take_each(s, n)->Some_0.0.len() == n,
        s == put_each(take_each(s, n)->Some_0.0) + take_each(s, n)->Some_0.1,
    decreases n,
{
    let (keys, rest) = take_each(s, n)->Some_0;
    if n == 0 {
        assert(s =~= put_each(keys) + rest);
    } else {
        lemma_bytes_sound(s);
        let (key, after) = take_bytes(s)->Some_0;
        lemma_each_sound(after, (n - 1) as nat);
        let (tail, last) = take_each(after, (n - 1) as nat)->Some_0;
        assert(keys == seq![key] + tail);
        assert(keys.drop_first() =~= tail);
        lemma_put_each_front(keys);
        assert(s =~= put_each(keys) + rest);
    }
}

/// What reads as a list of byte strings is its encoding, followed by what
/// is left.
pub proof fn lemma_keys_sound(s: Seq<u8>)
    requires
        take_keys(s) is Some,
    ensures
        s == put_keys(take_keys(s)->Some_0.0) + take_keys(s)->Some_0.1,
{
    lemma_u32_sound(s);
    let (n, rest) = take_u32(s)->Some_0;
    lemma_each_sound(rest, n as nat);
    let (keys, last) = take_each(rest, n as nat)->Some_0;
    assert(s =~= put_keys(keys) + last);
}

/// What reads as an envelope is its encoding, followed by what is left.
pub proof fn lemma_envelope_sound(s: Seq<u8>)
    requires
        parse_envelope(s) is Some,
    ensures
        s == wire_envelope(parse_envelope(s)->Some_0.0) + parse_envelope(s)->Some_0.1,
{
    reveal(parse_envelope);
    lemma_u32_sound(s);
    let (length, r1) = take_u32(s)->Some_0;
    lemma_u8_sound(r1);
    let (tag, r2) = take_u8(r1)->Some_0;
    lemma_bytes_sound(r2);
    let (payload, r3) = take_bytes(r2)->Some_0;
    lemma_bool_sound(r3);
    let (broadcast, r4) = take_bool(r3)->Some_0;
    let e = parse_envelope(s)->Some_0.0;
    assert(encoding_tag(e.encoding) == tag);
    assert(s =~= wire_envelope(e) + r4);
}

/// What reads as a handshake message is its encoding, followed by what is
/// left.
pub proof fn lemma_handshake_sound(s: Seq<u8>)
    requires
        parse_handshake(s) is Some,
    ensures
        s == wire_handshake(parse_handshake(s)->Some_0.0) + parse_handshake(s)->Some_0.1,
{
    reveal(parse_handshake);
    lemma_u8_sound(s);
    let (tag, r1) = take_u8(s)->Some_0;
    lemma_u64_sound(r1);
    let (len, r2) = take_u64(r1)->Some_0;
    lemma_bytes_sound(r2);
    let (buf, r3) = take_bytes(r2)->Some_0;
    assert((len as usize) as u64 == len);
    assert(s =~= wire_handshake(parse_handshake(s)->Some_0.0) + r3);
}

/// What reads as a transparent message is its encoding, followed by what
/// is left.
pub proof fn lemma_transparent_sound(s: Seq<u8>)
    requires
        parse_transparent(s) is Some,
    ensures
        s == wire_transparent(parse_transparent(s)->Some_0.0) + parse_transparent(s)->Some_0.1,
{
    reveal(parse_transparent);
    lemma_u8_sound(s);
    let (tag, r1) = take_u8(s)->Some_0;
    let (t, rest) = parse_transparent(s)->Some_0;
    if tag == 0 {
        lemma_handshake_sound(r1);
        assert(s =~= wire_transparent(t) + rest);
    } else {
        lemma_bytes_sound(r1);
        let (key, r2) = take_bytes(r1)->Some_0;
        lemma_handshake_sound(r2);
        assert(s =~= wire_transparent(t) + rest);
    }
}

/// What reads as an opaque message is its encoding, followed by what is
/// left.
pub proof fn lemma_opaque_sound(s: Seq<u8>)
    requires
        parse_opaque(s) is Some,
    ensures
        s == wire_opaque(parse_opaque(s)->Some_0.0) + parse_opaque(s)->Some_0.1,
{
    reveal(parse_opaque);
    lemma_u8_sound(s);
    let (tag, r1) = take_u8(s)->Some_0;
    let (o, rest) = parse_opaque(s)->Some_0;
    if tag == 0 {
        lemma_envelope_sound(r1);
        assert(s =~= wire_opaque(o) + rest);
    } else {
        lemma_bytes_sound(r1);
        let (key, r2) = take_bytes(r1)->Some_0;
        lemma_session_sound(r2);
        let (session_id, r3) = take_session(r2)->Some_0;
        lemma_envelope_sound(r3);
        assert(s =~= wire_opaque(o) + rest);
    }
}

/// What reads as a framed message is its encoding, followed by what is
/// left.
pub proof fn lemma_message_sound(s: Seq<u8>)
    requires
        parse_message(s) is Some,
    ensures
        s == wire_message(parse_message(s)->Some_0.0) + parse_message(s)->Some_0.1,
{
    lemma_u8_sound(s);
    let (tag, r1) = take_u8(s)->Some_0;
    let (m, rest) = parse_message(s)->Some_0;
    if tag == 0 {
        lemma_transparent_sound(r1);
        assert(s =~= wire_message(m) + rest);
    } else {
        lemma_opaque_sound(r1);
        assert(s =~= wire_message(m) + rest);
    }
}

/// What reads as the state of a session is its encoding, followed by what
/// is left.
pub proof fn lemma_state_sound(s: Seq<u8>)
    requires
        parse_state(s) is Some,
    ensures
        s == wire_state(parse_state(s)->Some_0.0) + parse_state(s)->Some_0.1,
{
    reveal(parse_state);
    lemma_u128_sound(s);
    let (id, r1) = take_u128(s)->Some_0;
    lemma_keys_sound(r1);
    let (state, rest) = parse_state(s)->Some_0;
    assert(s =~= wire_state(state) + rest);
}

/// What reads as a message of the server channel is its encoding, followed
/// by what is left.
pub proof fn lemma_server_message_sound(s: Seq<u8>)
    requires
        parse_server_message(s) is Some,
    ensures
        s == wire_server_message(parse_server_message(s)->Some_0.0) + parse_server_message(
            s,
        )->Some_0.1,
{
    reveal(parse_server_fields);
    lemma_u8_sound(s);
    let (tag, r1) = take_u8(s)->Some_0;
    let (m, rest) = parse_server_message(s)->Some_0;
    if tag == 0 {
        lemma_u16_sound(r1);
        let (code, r2) = take_u16(r1)->Some_0;
        lemma_text_sound(r2);
        assert(s =~= wire_server_message(m) + rest);
    } else if tag == 1 {
        lemma_keys_sound(r1);
        assert(s =~= wire_server_message(m) + rest);
    } else if tag == 2 || tag == 4 || tag == 7 {
        lemma_state_sound(r1);
        assert(s =~= wire_server_message(m) + rest);
    } else if tag == 5 {
        lemma_u128_sound(r1);
        let (id, r2) = take_u128(r1)->Some_0;
        lemma_bytes_sound(r2);
        assert(s =~= wire_server_message(m) + rest);
    } else {
        lemma_u128_sound(r1);
        assert(s =~= wire_server_message(m) + rest);
    }
}

// ------------------------------------------------------------------- laws

/// Whether a sequence of bytes is a frame: the encoding of a message,
/// within the largest length.
pub open spec fn is_frame(frame: Seq<u8>) -> bool {
    frame.len() <= MAX_FRAME_LENGTH && exists|m: MessageView| #[trigger] wire_message(m) == frame
}

/// Whether a sequence of bytes is the encoding of a message of the server
/// channel.
pub open spec fn is_server_plaintext(plaintext: Seq<u8>) -> bool {
    plaintext.len() <= u32::MAX && exists|m: ServerMessageView| #[trigger]
        wire_server_message(m) == plaintext
}

/// Decoding is the inverse of encoding: a frame decodes to a message
/// exactly when it is the encoding of that message and within the largest
/// length.
pub proof fn law_decoding_inverts_encoding(frame: Seq<u8>, m: MessageView)
    ensures
        decoded_message(frame) == Some(m) <==> (frame.len() <= MAX_FRAME_LENGTH && wire_message(m)
            == frame),
        decoded_message(frame) is Some <==> is_frame(frame),
{
    if decoded_message(frame) is Some {
        lemma_message_sound(frame);
        let found = decoded_message(frame)->Some_0;
        assert(wire_message(found) + Seq::<u8>::empty() =~= wire_message(found));
        assert(wire_message(found) == frame);
    }
    if frame.len() <= MAX_FRAME_LENGTH && wire_message(m) == frame {
        law_message_round_trip(m);
    }
    if is_frame(frame) {
        let v = choose|v: MessageView| #[trigger] wire_message(v) == frame;
        law_message_round_trip(v);
    }
}

/// Decoding is the inverse of encoding on the server channel too.
pub proof fn law_server_decoding_inverts_encoding(plaintext: Seq<u8>, m: ServerMessageView)
    ensures
        plaintext.len() <= u32::MAX ==> (decoded_server_message(plaintext) == Some(m)
            <==> wire_server_message(m) == plaintext),
        plaintext.len() <= u32::MAX ==> (decoded_server_message(plaintext) is Some
            <==> is_server_plaintext(plaintext)),
        decoded_server_message(plaintext) == Some(m) ==> wire_server_message(m) == plaintext,
{
    if decoded_server_message(plaintext) is Some {
        lemma_server_message_sound(plaintext);
        let found = decoded_server_message(plaintext)->Some_0;
        assert(wire_server_message(found) + Seq::<u8>::empty() =~= wire_server_message(found));
        assert(wire_server_message(found) == plaintext);
    }
    if plaintext.len() <= u32::MAX && wire_server_message(m) == plaintext {
        lemma_parse_server_message(m, Seq::<u8>::empty());
        assert(wire_server_message(m) + Seq::<u8>::empty() =~= wire_server_message(m));
    }
    if is_server_plaintext(plaintext) {
        let v = choose|v: ServerMessageView| #[trigger] wire_server_message(v) == plaintext;
        lemma_parse_server_message(v, Seq::<u8>::empty());
        assert(wire_server_message(v) + Seq::<u8>::empty() =~= wire_server_message(v));
    }
}

} // verus!
