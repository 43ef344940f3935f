use relay_client::channel::{open, seal};
use relay_client::{handshake_message, handshake_request};
use relay_client::{
    address, encode_request, encode_response, Channels, ClientError, ClientOptions, Encoding,
    Event, EventLoop, Frame, HandshakeMessage, JsonMessage, Keypair, NativeClient, OpaqueMessage,
    Peers, Phase, ProtocolFailure, RequestMessage, ResponseMessage, SealedEnvelope, ServerChannel,
    ServerMessage, SessionId, SessionState, Source, TransparentMessage, Turn, HANDSHAKE_BUFFER,
    MAX_NOISE_MESSAGE, PATTERN, TAGLEN,
};

fn keypair() -> Keypair {
    let builder = snow::Builder::new(PATTERN.parse().unwrap());
    let keys = builder.generate_keypair().unwrap();
    Keypair { private: keys.private, public: keys.public }
}

fn client(keys: &Keypair, server_public: &[u8]) -> (NativeClient, EventLoop, Channels) {
    let options = ClientOptions { keypair: keys.clone(), server_public_key: server_public.to_vec() };
    NativeClient::new(101, String::from("101 Switching Protocols"), options).unwrap()
}

/// The number of bytes in use and the buffer of a handshake message.
fn parts(message: HandshakeMessage) -> (usize, Vec<u8>) {
    match message {
        HandshakeMessage::Initiator(len, buf) => (len, buf),
        HandshakeMessage::Responder(len, buf) => (len, buf),
    }
}

/// Two registries whose owners have completed a handshake with each other:
/// `a` opened it, `b` answered.
fn connected(a: &Keypair, b: &Keypair) -> (Peers, Peers) {
    let mut at_a = Peers::new();
    let mut at_b = Peers::new();
    let (len, buf) = parts(at_a.begin_initiator(&a.private, &b.public).unwrap());
    let (reply_len, reply) =
        parts(at_b.begin_responder(&b.private, &a.public, len, &buf).unwrap());
    at_a.complete_initiator(&b.public, reply_len, &reply).unwrap();
    (at_a, at_b)
}

/// Connects the client `a` to the client `b` as the relay would carry the
/// two handshake messages.
fn connect_clients(
    a: &Keypair,
    a_client: &NativeClient,
    a_loop: &EventLoop,
    a_channels: &mut Channels,
    b: &Keypair,
    b_loop: &EventLoop,
    b_channels: &mut Channels,
) {
    let (len, buf) = match a_client.connect_peer(a_channels, &b.public).unwrap() {
        RequestMessage::Transparent(TransparentMessage::PeerHandshake {
            message: HandshakeMessage::Initiator(len, buf),
            ..
        }) => (len, buf),
        other => panic!("unexpected: {:?}", other),
    };
    let turn = b_loop.run(
        b_channels,
        Source::Decoded(ResponseMessage::Transparent(TransparentMessage::PeerHandshake {
            public_key: a.public.clone(),
            message: HandshakeMessage::Initiator(len, buf),
        })),
    );
    let (len, buf) = match turn.outbound {
        Some(RequestMessage::Transparent(TransparentMessage::PeerHandshake {
            message: HandshakeMessage::Responder(len, buf),
            ..
        })) => (len, buf),
        other => panic!("unexpected: {:?}", other),
    };
    let turn = a_loop.run(
        a_channels,
        Source::Decoded(ResponseMessage::Transparent(TransparentMessage::PeerHandshake {
            public_key: b.public.clone(),
            message: HandshakeMessage::Responder(len, buf),
        })),
    );
    assert_eq!(turn.item, Some(Ok(Event::PeerConnected { peer_key: b.public.clone() })));
}

fn envelope_of(request: RequestMessage) -> SealedEnvelope {
    match request {
        RequestMessage::Opaque(OpaqueMessage::PeerMessage { envelope, .. }) => envelope,
        other => panic!("unexpected: {:?}", other),
    }
}

fn idle() -> Turn {
    Turn { decoded: None, frame: None, outbound: None, item: None, stop: false }
}

#[test]
fn seal_frames_the_ciphertext() {
    assert_eq!(
        seal(Ok(19), vec![1, 2, 3], Encoding::Json, true),
        Ok(SealedEnvelope {
            length: 19,
            encoding: Encoding::Json,
            payload: vec![1, 2, 3],
            broadcast: true
        })
    );
    assert_eq!(
        seal(Err(ProtocolFailure::State), vec![1, 2, 3], Encoding::Blob, false),
        Err(ClientError::ProtocolError(ProtocolFailure::State))
    );
}

#[test]
fn open_cuts_the_plaintext() {
    assert_eq!(open(Ok(2), vec![1, 2, 3]), Ok(vec![1, 2]));
    assert_eq!(open(Ok(0), vec![1, 2, 3]), Ok(vec![]));
    assert_eq!(open(Ok(3), vec![1, 2, 3]), Ok(vec![1, 2, 3]));
    assert_eq!(
        open(Ok(4), vec![1, 2, 3]),
        Err(ClientError::ProtocolError(ProtocolFailure::Input))
    );
    assert_eq!(
        open(Err(ProtocolFailure::Decrypt), vec![1, 2, 3]),
        Err(ClientError::ProtocolError(ProtocolFailure::Decrypt))
    );
}

#[test]
fn registry_follows_the_handshake() {
    let a = keypair();
    let b = keypair();
    let mut at_a = Peers::new();
    let mut at_b = Peers::new();
    assert_eq!(at_a.phase(&b.public), None);

    let first = at_a.begin_initiator(&a.private, &b.public).unwrap();
    assert!(matches!(first, HandshakeMessage::Initiator(_, _)));
    let (len, buf) = parts(first);
    assert_eq!(buf.len(), HANDSHAKE_BUFFER);
    assert_eq!(len, 48);
    assert_eq!(at_a.phase(&b.public), Some(Phase::Handshake));
    assert_eq!(
        at_a.begin_initiator(&a.private, &b.public),
        Err(ClientError::PeerAlreadyExists)
    );

    let second = at_b.begin_responder(&b.private, &a.public, len, &buf).unwrap();
    assert!(matches!(second, HandshakeMessage::Responder(_, _)));
    let (reply_len, reply) = parts(second);
    assert_eq!(reply.len(), HANDSHAKE_BUFFER);
    assert_eq!(reply_len, 48);
    assert_eq!(at_b.phase(&a.public), Some(Phase::Transport));
    assert_eq!(
        at_b.begin_responder(&b.private, &a.public, len, &buf),
        Err(ClientError::PeerAlreadyExistsMaybeRace)
    );
    assert_eq!(at_b.phase(&a.public), Some(Phase::Transport));

    assert_eq!(at_a.complete_initiator(&b.public, reply_len, &reply), Ok(()));
    assert_eq!(at_a.phase(&b.public), Some(Phase::Transport));
    assert_eq!(
        at_a.complete_initiator(&b.public, reply_len, &reply),
        Err(ClientError::NotHandshakeState)
    );
    assert_eq!(at_a.phase(&b.public), Some(Phase::Transport));
}

#[test]
fn completion_needs_an_entry() {
    let mut peers = Peers::new();
    assert_eq!(
        peers.complete_initiator(&[0xde, 0xad], 0, &[]),
        Err(ClientError::PeerNotFound(String::from("dead")))
    );
    assert_eq!(peers.phase(&[0xde, 0xad]), None);
}

#[test]
fn refused_reply_keeps_the_handshake() {
    let a = keypair();
    let b = keypair();
    let mut at_a = Peers::new();
    at_a.begin_initiator(&a.private, &b.public).unwrap();
    let r = at_a.complete_initiator(&b.public, 48, &[3u8; 1024]);
    assert!(matches!(r, Err(ClientError::ProtocolError(_))));
    assert_eq!(at_a.phase(&b.public), Some(Phase::Handshake));
    assert_eq!(
        at_a.complete_initiator(&b.public, 2, &[0u8; 1]),
        Err(ClientError::ProtocolError(ProtocolFailure::Input))
    );
    assert_eq!(at_a.phase(&b.public), Some(Phase::Handshake));
}

#[test]
fn refused_first_message_stores_nothing() {
    let a = keypair();
    let b = keypair();
    let mut at_b = Peers::new();
    let r = at_b.begin_responder(&b.private, &a.public, 10, &[0u8; 1024]);
    assert!(matches!(r, Err(ClientError::ProtocolError(_))));
    assert_eq!(at_b.phase(&a.public), None);
    let r = at_b.begin_responder(&b.private, &a.public, 2000, &[0u8; 1024]);
    assert_eq!(r, Err(ClientError::ProtocolError(ProtocolFailure::Input)));
    assert_eq!(at_b.phase(&a.public), None);
    let r = at_b.begin_responder(&b.private[..5], &a.public, 10, &[0u8; 1024]);
    assert_eq!(r, Err(ClientError::ProtocolError(ProtocolFailure::Input)));
    assert_eq!(at_b.phase(&a.public), None);
}

#[test]
fn registry_keeps_peers_apart() {
    let a = keypair();
    let b = keypair();
    let c = keypair();
    let mut at_a = Peers::new();
    let mut at_b = Peers::new();
    let mut at_c = Peers::new();
    let (len, buf) = parts(at_a.begin_initiator(&a.private, &b.public).unwrap());
    let (reply_len, reply) =
        parts(at_b.begin_responder(&b.private, &a.public, len, &buf).unwrap());
    let (len_c, buf_c) = parts(at_a.begin_initiator(&a.private, &c.public).unwrap());
    at_a.complete_initiator(&b.public, reply_len, &reply).unwrap();
    assert_eq!(at_a.phase(&b.public), Some(Phase::Transport));
    assert_eq!(at_a.phase(&c.public), Some(Phase::Handshake));
    let (reply_len, reply) =
        parts(at_c.begin_responder(&c.private, &a.public, len_c, &buf_c).unwrap());
    at_a.complete_initiator(&c.public, reply_len, &reply).unwrap();
    assert_eq!(at_a.phase(&b.public), Some(Phase::Transport));
    assert_eq!(at_a.phase(&c.public), Some(Phase::Transport));

    let to_c = envelope_of(
        at_a.encrypt(&c.public, b"for c", Encoding::Blob, false, None).unwrap(),
    );
    let to_b = envelope_of(
        at_a.encrypt(&b.public, b"for b", Encoding::Blob, false, None).unwrap(),
    );
    assert_eq!(at_b.decrypt(&a.public, &to_b), Ok(b"for b".to_vec()));
    assert_eq!(at_c.decrypt(&a.public, &to_c), Ok(b"for c".to_vec()));
}

#[test]
fn envelope_length_is_plaintext_plus_tag() {
    let a = keypair();
    let b = keypair();
    let (mut at_a, _) = connected(&a, &b);
    for n in [0usize, 1, 7, 16, 1000, MAX_NOISE_MESSAGE - TAGLEN] {
        let payload = vec![5u8; n];
        let request = at_a
            .encrypt(&b.public, &payload, Encoding::Blob, true, Some(SessionId(9)))
            .unwrap();
        match request {
            RequestMessage::Opaque(OpaqueMessage::PeerMessage {
                public_key,
                session_id,
                envelope,
            }) => {
                assert_eq!(public_key, b.public);
                assert_eq!(session_id, Some(SessionId(9)));
                assert_eq!(envelope.length as usize, n + TAGLEN);
                assert_eq!(envelope.payload.len(), n + TAGLEN);
                assert_eq!(envelope.encoding, Encoding::Blob);
                assert!(envelope.broadcast);
            }
            other => panic!("unexpected: {:?}", other),
        }
    }
}

#[test]
fn payload_beyond_a_noise_message_is_refused() {
    let a = keypair();
    let b = keypair();
    let (mut at_a, _) = connected(&a, &b);
    let payload = vec![0u8; MAX_NOISE_MESSAGE - TAGLEN + 1];
    assert_eq!(
        at_a.encrypt(&b.public, &payload, Encoding::Blob, false, None),
        Err(ClientError::ProtocolError(ProtocolFailure::Input))
    );
}

#[test]
fn tampered_envelope_fails_and_the_channel_lives_on() {
    let a = keypair();
    let b = keypair();
    let (mut at_a, mut at_b) = connected(&a, &b);
    let good = envelope_of(at_a.encrypt(&b.public, b"hello", Encoding::Blob, false, None).unwrap());
    let mut bad = good.clone();
    bad.payload[0] ^= 1;
    assert_eq!(
        at_b.decrypt(&a.public, &bad),
        Err(ClientError::ProtocolError(ProtocolFailure::Decrypt))
    );
    assert_eq!(at_b.phase(&a.public), Some(Phase::Transport));
    assert_eq!(at_b.decrypt(&a.public, &good), Ok(b"hello".to_vec()));
}

#[test]
fn envelope_length_must_lie_in_the_payload() {
    let a = keypair();
    let b = keypair();
    let (mut at_a, mut at_b) = connected(&a, &b);
    let mut envelope =
        envelope_of(at_a.encrypt(&b.public, b"hello", Encoding::Blob, false, None).unwrap());
    envelope.length += 1;
    assert_eq!(
        at_b.decrypt(&a.public, &envelope),
        Err(ClientError::ProtocolError(ProtocolFailure::Input))
    );
    envelope.length = 15;
    assert!(matches!(
        at_b.decrypt(&a.public, &envelope),
        Err(ClientError::ProtocolError(_))
    ));
}

#[test]
fn over_allocated_payload_is_cut_at_its_length() {
    let a = keypair();
    let b = keypair();
    let (mut at_a, mut at_b) = connected(&a, &b);
    let mut envelope =
        envelope_of(at_a.encrypt(&b.public, b"hello", Encoding::Blob, false, None).unwrap());
    envelope.payload.extend_from_slice(&[0u8; 40]);
    assert_eq!(at_b.decrypt(&a.public, &envelope), Ok(b"hello".to_vec()));
}

#[test]
fn decrypt_needs_a_channel_in_transport() {
    let a = keypair();
    let b = keypair();
    let mut at_a = Peers::new();
    let envelope =
        SealedEnvelope { length: 16, encoding: Encoding::Blob, payload: vec![0; 16], broadcast: false };
    assert_eq!(
        at_a.decrypt(&b.public, &envelope),
        Err(ClientError::PeerNotFound(hex::encode(&b.public)))
    );
    at_a.begin_initiator(&a.private, &b.public).unwrap();
    assert_eq!(at_a.decrypt(&b.public, &envelope), Err(ClientError::NotTransportState));
    assert_eq!(
        at_a.encrypt(&b.public, b"x", Encoding::Blob, false, None),
        Err(ClientError::NotTransportState)
    );
}

#[test]
fn server_channel_refuses_what_its_phase_does_not_allow() {
    let keys = keypair();
    let server = keypair();
    let mut channel = ServerChannel::initialize(&keys.private, &server.public).unwrap();
    assert_eq!(channel.phase(), Some(Phase::Handshake));
    assert_eq!(channel.encrypt(b"x"), Err(ClientError::NotTransportState));
    let envelope =
        SealedEnvelope { length: 16, encoding: Encoding::Blob, payload: vec![0; 16], broadcast: false };
    assert_eq!(channel.decrypt(&envelope), Err(ClientError::NotTransportState));
    let first = channel.write_first().unwrap();
    assert!(matches!(first, HandshakeMessage::Initiator(_, _)));
    let (len, buf) = parts(first);
    assert_eq!(buf.len(), HANDSHAKE_BUFFER);
    assert_eq!(len, 48);
    assert!(buf[..len].iter().any(|byte| *byte != 0));
    assert!(buf[len..].iter().all(|byte| *byte == 0));
    assert_eq!(channel.phase(), Some(Phase::Handshake));
    assert!(matches!(
        ServerChannel::initialize(&keys.private[..31], &server.public),
        Err(ClientError::ProtocolError(ProtocolFailure::Input))
    ));
}

#[test]
fn peer_message_without_encoding_is_refused() {
    let server = keypair();
    let a = keypair();
    let b = keypair();
    let (a_client, a_loop, mut a_channels) = client(&a, &server.public);
    let (_, b_loop, mut b_channels) = client(&b, &server.public);
    connect_clients(&a, &a_client, &a_loop, &mut a_channels, &b, &b_loop, &mut b_channels);
    let envelope = envelope_of(
        a_client.relay(&mut a_channels, &b.public, b"x", Encoding::Noop, false, None).unwrap(),
    );
    let turn = b_loop.run(
        &mut b_channels,
        Source::Decoded(ResponseMessage::Opaque(OpaqueMessage::PeerMessage {
            public_key: a.public.clone(),
            session_id: None,
            envelope,
        })),
    );
    assert_eq!(
        turn.item,
        Some(Err(ClientError::ProtocolError(ProtocolFailure::UnexpectedEncoding)))
    );
    assert_eq!(b_channels.peer_phase(&a.public), Some(Phase::Transport));
}

#[test]
fn first_message_of_a_server_is_no_message_for_a_client() {
    let server = keypair();
    let (_, event_loop, mut channels) = client(&keypair(), &server.public);
    let turn = event_loop.run(
        &mut channels,
        Source::Decoded(ResponseMessage::Transparent(TransparentMessage::ServerHandshake(
            HandshakeMessage::Initiator(0, vec![]),
        ))),
    );
    assert_eq!(
        turn.item,
        Some(Err(ClientError::ProtocolError(ProtocolFailure::UnexpectedMessage)))
    );
    assert_eq!(channels.server_phase(), Some(Phase::Handshake));
}

#[test]
fn message_of_an_unknown_peer_is_an_error_in_band() {
    let server = keypair();
    let (_, event_loop, mut channels) = client(&keypair(), &server.public);
    let turn = event_loop.run(
        &mut channels,
        Source::Decoded(ResponseMessage::Opaque(OpaqueMessage::PeerMessage {
            public_key: vec![0xab, 0x01],
            session_id: None,
            envelope: SealedEnvelope {
                length: 16,
                encoding: Encoding::Blob,
                payload: vec![0; 16],
                broadcast: false,
            },
        })),
    );
    assert_eq!(turn.item, Some(Err(ClientError::PeerNotFound(String::from("ab01")))));
    let turn = event_loop.run(
        &mut channels,
        Source::Decoded(ResponseMessage::Transparent(TransparentMessage::PeerHandshake {
            public_key: vec![0xab, 0x01],
            message: HandshakeMessage::Responder(0, vec![]),
        })),
    );
    assert_eq!(turn.item, Some(Err(ClientError::PeerNotFound(String::from("ab01")))));
}

#[test]
fn frames_are_decoded_and_queued() {
    let server = keypair();
    let (_, event_loop, mut channels) = client(&keypair(), &server.public);
    let response = ResponseMessage::Transparent(TransparentMessage::ServerHandshake(
        HandshakeMessage::Responder(3, vec![1, 2, 3]),
    ));
    let frame = encode_response(&response).unwrap();
    let turn = event_loop.run(&mut channels, Source::Transport(Frame::Binary(frame)));
    assert_eq!(turn, Turn { decoded: Some(response), ..idle() });
    assert_eq!(channels.server_phase(), Some(Phase::Handshake));

    let turn = event_loop.run(&mut channels, Source::Transport(Frame::Binary(vec![9, 9, 9])));
    assert_eq!(turn, Turn { item: Some(Err(ClientError::DecodeError)), ..idle() });

    let turn = event_loop.run(&mut channels, Source::Transport(Frame::Other));
    assert_eq!(turn, idle());
}

#[test]
fn outbound_requests_are_encoded_and_written() {
    let server = keypair();
    let (client, event_loop, mut channels) = client(&keypair(), &server.public);
    let request = client.connect(&mut channels).unwrap();
    let expected = encode_request(&request).unwrap();
    let turn = event_loop.run(&mut channels, Source::Outbound(request));
    assert_eq!(turn, Turn { frame: Some(expected), ..idle() });

    let too_long = RequestMessage::Opaque(OpaqueMessage::ServerMessage(SealedEnvelope {
        length: 0,
        encoding: Encoding::Blob,
        payload: vec![0; 2_000_000],
        broadcast: false,
    }));
    let turn = event_loop.run(&mut channels, Source::Outbound(too_long));
    assert_eq!(turn, Turn { item: Some(Err(ClientError::EncodeError)), ..idle() });
}

#[test]
fn broadcast_stops_at_the_first_failure() {
    let server = keypair();
    let a = keypair();
    let b = keypair();
    let c = keypair();
    let (a_client, a_loop, mut a_channels) = client(&a, &server.public);
    let (_, b_loop, mut b_channels) = client(&b, &server.public);
    connect_clients(&a, &a_client, &a_loop, &mut a_channels, &b, &b_loop, &mut b_channels);
    let session = SessionId(11);

    let (requests, outcome) = a_client.broadcast(
        &mut a_channels,
        &session,
        &[b.public.clone(), b.public.clone()],
        b"[1]",
    );
    assert_eq!(outcome, Ok(()));
    assert_eq!(requests.len(), 2);
    for request in requests {
        let (public_key, session_id, envelope) = match request {
            RequestMessage::Opaque(OpaqueMessage::PeerMessage {
                public_key,
                session_id,
                envelope,
            }) => (public_key, session_id, envelope),
            other => panic!("unexpected: {:?}", other),
        };
        assert_eq!(public_key, b.public);
        assert_eq!(session_id, Some(session));
        assert_eq!(envelope.encoding, Encoding::Json);
        assert!(envelope.broadcast);
        assert_eq!(envelope.length, 19);
        let turn = b_loop.run(
            &mut b_channels,
            Source::Decoded(ResponseMessage::Opaque(OpaqueMessage::PeerMessage {
                public_key: a.public.clone(),
                session_id,
                envelope,
            })),
        );
        assert_eq!(
            turn.item,
            Some(Ok(Event::JsonMessage {
                peer_key: a.public.clone(),
                message: JsonMessage { contents: b"[1]".to_vec() },
                session_id: Some(session),
            }))
        );
    }

    let (requests, outcome) = a_client.broadcast_blob(
        &mut a_channels,
        &session,
        &[b.public.clone(), c.public.clone(), b.public.clone()],
        &[1, 2],
    );
    assert_eq!(requests.len(), 1);
    assert_eq!(outcome, Err(ClientError::PeerNotFound(hex::encode(&c.public))));
    match &requests[0] {
        RequestMessage::Opaque(OpaqueMessage::PeerMessage { envelope, .. }) => {
            assert_eq!(envelope.encoding, Encoding::Blob);
            assert!(envelope.broadcast);
            assert_eq!(envelope.length, 18);
        }
        other => panic!("unexpected: {:?}", other),
    }

    let (requests, outcome) = a_client.broadcast_blob(&mut a_channels, &session, &[], &[1, 2]);
    assert_eq!(requests.len(), 0);
    assert_eq!(outcome, Ok(()));
}

#[test]
fn server_messages_become_events() {
    let server = keypair();
    let (_, event_loop, _) = client(&keypair(), &server.public);
    let state = SessionState { session_id: SessionId(5), all_participants: vec![vec![1], vec![2]] };
    assert_eq!(
        event_loop.handle_server_channel_message(ServerMessage::SessionCreated(state.clone())),
        Ok(Some(Event::SessionCreated(state.clone())))
    );
    assert_eq!(
        event_loop.handle_server_channel_message(ServerMessage::SessionReady(state.clone())),
        Ok(Some(Event::SessionReady(state.clone())))
    );
    assert_eq!(
        event_loop.handle_server_channel_message(ServerMessage::SessionActive(state.clone())),
        Ok(Some(Event::SessionActive(state)))
    );
    assert_eq!(
        event_loop.handle_server_channel_message(ServerMessage::SessionFinished(SessionId(5))),
        Ok(Some(Event::SessionFinished(SessionId(5))))
    );
    assert_eq!(
        event_loop.handle_server_channel_message(ServerMessage::Error(500, String::from("no"))),
        Err(ClientError::ServerError(500, String::from("no")))
    );
    assert_eq!(
        event_loop.handle_server_channel_message(ServerMessage::SessionReadyNotify(SessionId(5))),
        Ok(None)
    );
    assert_eq!(
        event_loop.server_event(Encoding::Blob, &[9, 1, 0, 0, 0, 0, 0, 0, 0, 0, 0, 0, 0, 0, 0, 0, 0]),
        Ok(Some(Event::SessionFinished(SessionId(1))))
    );
    assert_eq!(event_loop.server_event(Encoding::Blob, &[9, 1]), Err(ClientError::DecodeError));
    assert_eq!(
        event_loop.server_event(Encoding::Noop, &[9, 1]),
        Err(ClientError::ProtocolError(ProtocolFailure::UnexpectedEncoding))
    );
}

#[test]
fn relayed_plaintext_becomes_an_event() {
    let server = keypair();
    let (_, event_loop, _) = client(&keypair(), &server.public);
    assert_eq!(
        event_loop.relayed_event(&[1, 2], Encoding::Blob, vec![3, 4], Some(SessionId(6))),
        Ok(Event::BinaryMessage {
            peer_key: vec![1, 2],
            message: vec![3, 4],
            session_id: Some(SessionId(6))
        })
    );
    assert_eq!(
        event_loop.relayed_event(&[1, 2], Encoding::Json, b"{}".to_vec(), None),
        Ok(Event::JsonMessage {
            peer_key: vec![1, 2],
            message: JsonMessage { contents: b"{}".to_vec() },
            session_id: None
        })
    );
    assert_eq!(
        event_loop.relayed_event(&[1, 2], Encoding::Noop, vec![], None),
        Err(ClientError::ProtocolError(ProtocolFailure::UnexpectedEncoding))
    );
}

#[test]
fn address_of_a_known_key() {
    let mut key = vec![0x04u8];
    key.extend_from_slice(
        &hex::decode("79be667ef9dcbbac55a06295ce870b07029bfcdb2dce28d959f2815b16f81798").unwrap(),
    );
    key.extend_from_slice(
        &hex::decode("483ada7726a3c4655da4fbfc0e1108a8fd17b448a68554199c47d08ffb10d4b8").unwrap(),
    );
    assert_eq!(key.len(), 65);
    assert_eq!(address(&key), "0x7e5f4552091a69125d5dfcb7b8c2659029395bdf");
}

#[test]
fn address_skips_the_first_byte() {
    let mut key = vec![4u8; 65];
    let with_marker = address(&key);
    key[0] = 9;
    assert_eq!(address(&key), with_marker);
    assert_eq!(with_marker, "0x5ec7529be23fdfd2c28075be3e06dcab3c7d62c5");
    // one byte only: the digest of the empty string
    assert_eq!(address(&[4]), "0xdcc703c0e500b653ca82273b7bfad8045d85a470");
}

#[test]
fn handshake_message_carries_what_was_written() {
    assert_eq!(
        handshake_message(Ok(2), vec![7, 8, 9], false),
        Ok(HandshakeMessage::Initiator(2, vec![7, 8, 9]))
    );
    assert_eq!(
        handshake_message(Ok(3), vec![7, 8, 9], true),
        Ok(HandshakeMessage::Responder(3, vec![7, 8, 9]))
    );
    assert_eq!(
        handshake_message(Ok(4), vec![7, 8, 9], true),
        Err(ClientError::ProtocolError(ProtocolFailure::Input))
    );
    assert_eq!(
        handshake_message(Err(ProtocolFailure::State), vec![7, 8, 9], false),
        Err(ClientError::ProtocolError(ProtocolFailure::State))
    );
}

#[test]
fn handshake_request_addresses_the_message() {
    let message = HandshakeMessage::Initiator(1, vec![5]);
    assert_eq!(
        handshake_request(None, message.clone()),
        RequestMessage::Transparent(TransparentMessage::ServerHandshake(message.clone()))
    );
    assert_eq!(
        handshake_request(Some(&[1, 2]), message.clone()),
        RequestMessage::Transparent(TransparentMessage::PeerHandshake {
            public_key: vec![1, 2],
            message,
        })
    );
}

#[test]
fn transport_failure_is_yielded_and_close_ends_the_stream() {
    let server = keypair();
    let (_, event_loop, mut channels) = client(&keypair(), &server.public);
    let turn = event_loop.run(&mut channels, Source::Failed(String::from("reset")));
    assert_eq!(
        turn,
        Turn { item: Some(Err(ClientError::TransportError(String::from("reset")))), ..idle() }
    );
    assert!(!turn.stop);
    let turn = event_loop.run(&mut channels, Source::Closed);
    assert_eq!(turn, Turn { stop: true, ..idle() });
    assert_eq!(channels.server_phase(), Some(Phase::Handshake));
}

#[test]
fn first_message_beyond_its_buffer_is_refused() {
    let server = keypair();
    let peer = keypair();
    let (_, event_loop, mut channels) = client(&keypair(), &server.public);
    let turn = event_loop.run(
        &mut channels,
        Source::Decoded(ResponseMessage::Transparent(TransparentMessage::PeerHandshake {
            public_key: peer.public.clone(),
            message: HandshakeMessage::Initiator(49, vec![0u8; 48]),
        })),
    );
    assert_eq!(
        turn,
        Turn {
            item: Some(Err(ClientError::ProtocolError(ProtocolFailure::Input))),
            ..idle()
        }
    );
    assert_eq!(channels.peer_phase(&peer.public), None);
}

#[test]
fn envelope_beyond_its_payload_is_refused_at_the_loop() {
    let server = keypair();
    let a = keypair();
    let b = keypair();
    let (a_client, a_loop, mut a_channels) = client(&a, &server.public);
    let (_, b_loop, mut b_channels) = client(&b, &server.public);
    connect_clients(&a, &a_client, &a_loop, &mut a_channels, &b, &b_loop, &mut b_channels);
    let mut envelope =
        envelope_of(a_client.send_blob(&mut a_channels, &b.public, b"hello", None).unwrap());
    envelope.length += 1;
    let turn = b_loop.run(
        &mut b_channels,
        Source::Decoded(ResponseMessage::Opaque(OpaqueMessage::PeerMessage {
            public_key: a.public.clone(),
            session_id: None,
            envelope,
        })),
    );
    assert_eq!(
        turn.item,
        Some(Err(ClientError::ProtocolError(ProtocolFailure::Input)))
    );
    assert_eq!(b_channels.peer_phase(&a.public), Some(Phase::Transport));
}
