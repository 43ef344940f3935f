use relay_client::{
    decode_server_message, encode_server_message, Channels, ClientError, ClientOptions, Encoding,
    Event, EventLoop, HandshakeMessage, JsonMessage, Keypair, NativeClient, OpaqueMessage, Phase,
    ProtocolFailure, RequestMessage, ResponseMessage, SealedEnvelope, ServerMessage, SessionId,
    SessionRequest, SessionState, Source, TransparentMessage, HANDSHAKE_BUFFER, PATTERN, TAGLEN,
};

fn keypair() -> Keypair {
    let builder = snow::Builder::new(PATTERN.parse().unwrap());
    let keys = builder.generate_keypair().unwrap();
    Keypair { private: keys.private, public: keys.public }
}

fn client(server_public: &[u8]) -> (Keypair, NativeClient, EventLoop, Channels) {
    let keys = keypair();
    let options = ClientOptions { keypair: keys.clone(), server_public_key: server_public.to_vec() };
    let (client, event_loop, channels) =
        NativeClient::new(101, String::from("101 Switching Protocols"), options).unwrap();
    (keys, client, event_loop, channels)
}

/// Plays the server's side of the handshake: reads the first message and
/// writes the reply.
fn answer(server_private: &[u8], len: usize, buf: &[u8]) -> (snow::TransportState, usize, Vec<u8>) {
    let mut responder = snow::Builder::new(PATTERN.parse().unwrap())
        .local_private_key(server_private)
        .build_responder()
        .unwrap();
    let mut scratch = vec![0u8; 1024];
    responder.read_message(&buf[..len], &mut scratch).unwrap();
    let mut reply = vec![0u8; 1024];
    let reply_len = responder.write_message(&[], &mut reply).unwrap();
    (responder.into_transport_mode().unwrap(), reply_len, reply)
}

fn initiator_parts(request: RequestMessage) -> (usize, Vec<u8>) {
    match request {
        RequestMessage::Transparent(TransparentMessage::ServerHandshake(
            HandshakeMessage::Initiator(len, buf),
        )) => (len, buf),
        RequestMessage::Transparent(TransparentMessage::PeerHandshake {
            message: HandshakeMessage::Initiator(len, buf),
            ..
        }) => (len, buf),
        other => panic!("not an initiator message: {:?}", other),
    }
}

/// Brings the channel to the server into its transport phase and returns
/// the server's end of it.
fn connect_server(
    server: &Keypair,
    client: &NativeClient,
    event_loop: &EventLoop,
    channels: &mut Channels,
) -> snow::TransportState {
    let (len, buf) = initiator_parts(client.connect(channels).unwrap());
    let (transport, reply_len, reply) = answer(&server.private, len, &buf);
    let response = ResponseMessage::Transparent(TransparentMessage::ServerHandshake(
        HandshakeMessage::Responder(reply_len, reply),
    ));
    let turn = event_loop.run(channels, Source::Decoded(response));
    assert_eq!(
        turn.item,
        Some(Ok(Event::ServerConnected { server_key: server.public.clone() }))
    );
    transport
}

/// Connects `a` to `b` as the relay would carry the two handshake messages.
fn connect_peers(
    a: (&Keypair, &NativeClient, &EventLoop, &mut Channels),
    b: (&Keypair, &EventLoop, &mut Channels),
) {
    let request = a.1.connect_peer(a.3, &b.0.public).unwrap();
    let (len, buf) = initiator_parts(request);
    let forwarded = ResponseMessage::Transparent(TransparentMessage::PeerHandshake {
        public_key: a.0.public.clone(),
        message: HandshakeMessage::Initiator(len, buf),
    });
    let turn = b.1.run(b.2, Source::Decoded(forwarded));
    assert_eq!(turn.item, Some(Ok(Event::PeerConnected { peer_key: a.0.public.clone() })));
    let (reply_len, reply) = match turn.outbound {
        Some(RequestMessage::Transparent(TransparentMessage::PeerHandshake {
            public_key,
            message: HandshakeMessage::Responder(len, buf),
        })) => {
            assert_eq!(public_key, a.0.public);
            (len, buf)
        }
        other => panic!("no reply: {:?}", other),
    };
    let back = ResponseMessage::Transparent(TransparentMessage::PeerHandshake {
        public_key: b.0.public.clone(),
        message: HandshakeMessage::Responder(reply_len, reply),
    });
    let turn = a.2.run(a.3, Source::Decoded(back));
    assert_eq!(turn.item, Some(Ok(Event::PeerConnected { peer_key: b.0.public.clone() })));
    assert_eq!(turn.outbound, None);
}

fn seal(transport: &mut snow::TransportState, message: &ServerMessage) -> SealedEnvelope {
    let plaintext = encode_server_message(message).unwrap();
    let mut payload = vec![0u8; plaintext.len() + TAGLEN];
    let length = transport.write_message(&plaintext, &mut payload).unwrap();
    SealedEnvelope { length: length as u32, encoding: Encoding::Blob, payload, broadcast: false }
}

#[test]
fn handshake_with_server() {
    let server = keypair();
    let (_, client, event_loop, mut channels) = client(&server.public);
    assert_eq!(channels.server_phase(), Some(Phase::Handshake));

    let request = client.connect(&mut channels).unwrap();
    let (len, buf) = initiator_parts(request);
    assert_eq!(buf.len(), HANDSHAKE_BUFFER);
    assert!(0 < len && len <= buf.len());
    assert_eq!(len, 32 + TAGLEN);
    assert_eq!(channels.server_phase(), Some(Phase::Handshake));

    let (_, reply_len, reply) = answer(&server.private, len, &buf);
    let response = ResponseMessage::Transparent(TransparentMessage::ServerHandshake(
        HandshakeMessage::Responder(reply_len, reply),
    ));
    let turn = event_loop.run(&mut channels, Source::Decoded(response));
    assert_eq!(
        turn.item,
        Some(Ok(Event::ServerConnected { server_key: server.public.clone() }))
    );
    assert_eq!(turn.outbound, None);
    assert_eq!(turn.decoded, None);
    assert_eq!(turn.frame, None);
    assert_eq!(channels.server_phase(), Some(Phase::Transport));
}

#[test]
fn connect_fails_after_handshake() {
    let server = keypair();
    let (_, client, event_loop, mut channels) = client(&server.public);
    connect_server(&server, &client, &event_loop, &mut channels);
    assert_eq!(client.connect(&mut channels), Err(ClientError::NotHandshakeState));
    assert_eq!(channels.server_phase(), Some(Phase::Transport));
}

#[test]
fn second_server_reply_keeps_transport() {
    let server = keypair();
    let (_, client, event_loop, mut channels) = client(&server.public);
    connect_server(&server, &client, &event_loop, &mut channels);
    let response = ResponseMessage::Transparent(TransparentMessage::ServerHandshake(
        HandshakeMessage::Responder(0, vec![0u8; 1024]),
    ));
    let turn = event_loop.run(&mut channels, Source::Decoded(response));
    assert_eq!(turn.item, Some(Err(ClientError::NotHandshakeState)));
    assert_eq!(channels.server_phase(), Some(Phase::Transport));
}

#[test]
fn bad_server_reply_keeps_handshake() {
    let server = keypair();
    let (_, client, event_loop, mut channels) = client(&server.public);
    client.connect(&mut channels).unwrap();
    let response = ResponseMessage::Transparent(TransparentMessage::ServerHandshake(
        HandshakeMessage::Responder(48, vec![7u8; 1024]),
    ));
    let turn = event_loop.run(&mut channels, Source::Decoded(response));
    assert!(matches!(turn.item, Some(Err(ClientError::ProtocolError(_)))));
    assert_eq!(channels.server_phase(), Some(Phase::Handshake));
}

#[test]
fn handshake_length_beyond_buffer_is_refused() {
    let server = keypair();
    let (_, client, event_loop, mut channels) = client(&server.public);
    client.connect(&mut channels).unwrap();
    let response = ResponseMessage::Transparent(TransparentMessage::ServerHandshake(
        HandshakeMessage::Responder(5, vec![0u8; 4]),
    ));
    let turn = event_loop.run(&mut channels, Source::Decoded(response));
    assert_eq!(
        turn.item,
        Some(Err(ClientError::ProtocolError(ProtocolFailure::Input)))
    );
    assert_eq!(channels.server_phase(), Some(Phase::Handshake));
}

#[test]
fn peer_double_connect_local() {
    let server = keypair();
    let (_, client, event_loop, mut channels) = client(&server.public);
    connect_server(&server, &client, &event_loop, &mut channels);
    let peer = keypair();

    let first = client.connect_peer(&mut channels, &peer.public);
    match first {
        Ok(RequestMessage::Transparent(TransparentMessage::PeerHandshake {
            public_key,
            message: HandshakeMessage::Initiator(len, buf),
        })) => {
            assert_eq!(public_key, peer.public);
            assert_eq!(buf.len(), HANDSHAKE_BUFFER);
            assert!(0 < len && len <= buf.len());
        }
        other => panic!("unexpected: {:?}", other),
    }
    assert_eq!(channels.peer_phase(&peer.public), Some(Phase::Handshake));

    let second = client.connect_peer(&mut channels, &peer.public);
    assert_eq!(second, Err(ClientError::PeerAlreadyExists));
    assert_eq!(channels.peer_phase(&peer.public), Some(Phase::Handshake));
}

#[test]
fn peer_handshake_race() {
    let server = keypair();
    let (a_keys, a, a_loop, mut a_channels) = client(&server.public);
    let (b_keys, b, _, mut b_channels) = client(&server.public);
    a.connect_peer(&mut a_channels, &b_keys.public).unwrap();
    let (len, buf) = initiator_parts(b.connect_peer(&mut b_channels, &a_keys.public).unwrap());

    let colliding = ResponseMessage::Transparent(TransparentMessage::PeerHandshake {
        public_key: b_keys.public.clone(),
        message: HandshakeMessage::Initiator(len, buf),
    });
    let turn = a_loop.run(&mut a_channels, Source::Decoded(colliding));
    assert_eq!(turn.item, Some(Err(ClientError::PeerAlreadyExistsMaybeRace)));
    assert_eq!(turn.outbound, None);
    assert_eq!(a_channels.peer_phase(&b_keys.public), Some(Phase::Handshake));
    assert_eq!(a_channels.server_phase(), Some(Phase::Handshake));
}

#[test]
fn send_json_through_peer() {
    let server = keypair();
    let (a_keys, a, a_loop, mut a_channels) = client(&server.public);
    let (b_keys, _, b_loop, mut b_channels) = client(&server.public);
    connect_peers(
        (&a_keys, &a, &a_loop, &mut a_channels),
        (&b_keys, &b_loop, &mut b_channels),
    );

    let mut object = serde_json::Map::new();
    object.insert(String::from("x"), serde_json::Value::from(1));
    let text = serde_json::to_vec(&serde_json::Value::Object(object)).unwrap();
    assert_eq!(text, b"{\"x\":1}".to_vec());

    let request = a.send(&mut a_channels, &b_keys.public, &text, None).unwrap();
    let envelope = match request {
        RequestMessage::Opaque(OpaqueMessage::PeerMessage { public_key, session_id, envelope }) => {
            assert_eq!(public_key, b_keys.public);
            assert_eq!(session_id, None);
            envelope
        }
        other => panic!("unexpected: {:?}", other),
    };
    assert_eq!(envelope.encoding, Encoding::Json);
    assert!(!envelope.broadcast);
    assert_eq!(envelope.length as usize, b"{\"x\":1}".len() + TAGLEN);
    assert_eq!(envelope.length, 23);

    let forwarded = ResponseMessage::Opaque(OpaqueMessage::PeerMessage {
        public_key: a_keys.public.clone(),
        session_id: None,
        envelope,
    });
    let turn = b_loop.run(&mut b_channels, Source::Decoded(forwarded));
    assert_eq!(
        turn.item,
        Some(Ok(Event::JsonMessage {
            peer_key: a_keys.public.clone(),
            message: JsonMessage { contents: b"{\"x\":1}".to_vec() },
            session_id: None,
        }))
    );
}

#[test]
fn blobs_arrive_in_the_order_sent() {
    let server = keypair();
    let (a_keys, a, a_loop, mut a_channels) = client(&server.public);
    let (b_keys, _, b_loop, mut b_channels) = client(&server.public);
    connect_peers(
        (&a_keys, &a, &a_loop, &mut a_channels),
        (&b_keys, &b_loop, &mut b_channels),
    );
    let session = Some(SessionId(7));
    let payloads: Vec<Vec<u8>> = vec![vec![1, 2, 3], vec![], vec![9; 300]];
    let mut requests = Vec::new();
    for payload in &payloads {
        requests.push(a.send_blob(&mut a_channels, &b_keys.public, payload, session).unwrap());
    }
    for (request, payload) in requests.into_iter().zip(payloads) {
        let envelope = match request {
            RequestMessage::Opaque(OpaqueMessage::PeerMessage { envelope, .. }) => envelope,
            other => panic!("unexpected: {:?}", other),
        };
        assert_eq!(envelope.length as usize, payload.len() + 16);
        let forwarded = ResponseMessage::Opaque(OpaqueMessage::PeerMessage {
            public_key: a_keys.public.clone(),
            session_id: session,
            envelope,
        });
        let turn = b_loop.run(&mut b_channels, Source::Decoded(forwarded));
        assert_eq!(
            turn.item,
            Some(Ok(Event::BinaryMessage {
                peer_key: a_keys.public.clone(),
                message: payload,
                session_id: session,
            }))
        );
    }
}

#[test]
fn send_to_unknown_peer_names_the_key_in_hex() {
    let server = keypair();
    let (_, client, _, mut channels) = client(&server.public);
    let key = vec![0x00u8, 0x1f, 0xa0, 0xff];
    assert_eq!(
        client.send_blob(&mut channels, &key, &[1, 2, 3], None),
        Err(ClientError::PeerNotFound(String::from("001fa0ff")))
    );
}

#[test]
fn send_before_peer_handshake_completes() {
    let server = keypair();
    let (_, client, _, mut channels) = client(&server.public);
    let peer = keypair();
    client.connect_peer(&mut channels, &peer.public).unwrap();
    assert_eq!(
        client.send(&mut channels, &peer.public, b"{}", None),
        Err(ClientError::NotTransportState)
    );
}

#[test]
fn session_creation() {
    let server = keypair();
    let (_, client, event_loop, mut channels) = client(&server.public);
    let mut transport = connect_server(&server, &client, &event_loop, &mut channels);
    let k1 = keypair().public;
    let k2 = keypair().public;

    let request = client.new_session(&mut channels, vec![k1.clone(), k2.clone()]).unwrap();
    let envelope = match request {
        RequestMessage::Opaque(OpaqueMessage::ServerMessage(envelope)) => envelope,
        other => panic!("unexpected: {:?}", other),
    };
    assert_eq!(envelope.encoding, Encoding::Blob);
    let mut plaintext = vec![0u8; envelope.length as usize];
    let n = transport
        .read_message(&envelope.payload[..envelope.length as usize], &mut plaintext)
        .unwrap();
    plaintext.truncate(n);
    assert_eq!(
        decode_server_message(&plaintext),
        Ok(ServerMessage::NewSession(SessionRequest {
            participant_keys: vec![k1.clone(), k2.clone()]
        }))
    );

    let created = SessionState { session_id: SessionId(42), all_participants: vec![k1, k2] };
    let envelope = seal(&mut transport, &ServerMessage::SessionCreated(created.clone()));
    let turn = event_loop.run(
        &mut channels,
        Source::Decoded(ResponseMessage::Opaque(OpaqueMessage::ServerMessage(envelope))),
    );
    assert_eq!(turn.item, Some(Ok(Event::SessionCreated(created))));
    assert_eq!(turn.outbound, None);
}

#[test]
fn session_requests_need_the_server_channel() {
    let server = keypair();
    let (_, client, _, mut channels) = client(&server.public);
    let id = SessionId(1);
    assert_eq!(client.new_session(&mut channels, vec![]), Err(ClientError::NotTransportState));
    assert_eq!(
        client.session_ready_notify(&mut channels, &id),
        Err(ClientError::NotTransportState)
    );
    assert_eq!(
        client.session_active_notify(&mut channels, &id),
        Err(ClientError::NotTransportState)
    );
    assert_eq!(
        client.register_session_connection(&mut channels, &id, &[1, 2]),
        Err(ClientError::NotTransportState)
    );
    assert_eq!(client.close_session(&mut channels, id), Err(ClientError::NotTransportState));
}

#[test]
fn server_error_surfaced() {
    let server = keypair();
    let (_, client, event_loop, mut channels) = client(&server.public);
    let mut transport = connect_server(&server, &client, &event_loop, &mut channels);

    let envelope = seal(&mut transport, &ServerMessage::Error(418, String::from("teapot")));
    let turn = event_loop.run(
        &mut channels,
        Source::Decoded(ResponseMessage::Opaque(OpaqueMessage::ServerMessage(envelope))),
    );
    assert_eq!(
        turn.item,
        Some(Err(ClientError::ServerError(418, String::from("teapot"))))
    );

    let envelope = seal(&mut transport, &ServerMessage::SessionFinished(SessionId(3)));
    let turn = event_loop.run(
        &mut channels,
        Source::Decoded(ResponseMessage::Opaque(OpaqueMessage::ServerMessage(envelope))),
    );
    assert_eq!(turn.item, Some(Ok(Event::SessionFinished(SessionId(3)))));
}

#[test]
fn other_server_messages_are_consumed() {
    let server = keypair();
    let (_, client, event_loop, mut channels) = client(&server.public);
    let mut transport = connect_server(&server, &client, &event_loop, &mut channels);
    let envelope = seal(&mut transport, &ServerMessage::CloseSession(SessionId(3)));
    let turn = event_loop.run(
        &mut channels,
        Source::Decoded(ResponseMessage::Opaque(OpaqueMessage::ServerMessage(envelope))),
    );
    assert_eq!(turn.item, None);
    assert_eq!(turn.outbound, None);
}

#[test]
fn server_envelope_must_be_a_blob() {
    let server = keypair();
    let (_, client, event_loop, mut channels) = client(&server.public);
    let mut transport = connect_server(&server, &client, &event_loop, &mut channels);
    let mut envelope = seal(&mut transport, &ServerMessage::SessionFinished(SessionId(3)));
    envelope.encoding = Encoding::Json;
    let turn = event_loop.run(
        &mut channels,
        Source::Decoded(ResponseMessage::Opaque(OpaqueMessage::ServerMessage(envelope))),
    );
    assert_eq!(
        turn.item,
        Some(Err(ClientError::ProtocolError(ProtocolFailure::UnexpectedEncoding)))
    );
    assert_eq!(channels.server_phase(), Some(Phase::Transport));
}

#[test]
fn http_status_other_than_101_fails() {
    let options = ClientOptions { keypair: keypair(), server_public_key: keypair().public };
    let r = NativeClient::new(404, String::from("404 Not Found"), options);
    match r {
        Err(e) => assert_eq!(e, ClientError::HttpError(404, String::from("404 Not Found"))),
        Ok(_) => panic!("a client was made"),
    }
}

#[test]
fn keys_of_another_length_are_invalid_input() {
    let options = ClientOptions { keypair: keypair(), server_public_key: vec![1u8; 31] };
    let r = NativeClient::new(101, String::from("101 Switching Protocols"), options);
    match r {
        Err(e) => assert_eq!(e, ClientError::ProtocolError(ProtocolFailure::Input)),
        Ok(_) => panic!("a client was made"),
    }
    let server = keypair();
    let (_, client, _, mut channels) = client(&server.public);
    assert_eq!(
        client.connect_peer(&mut channels, &[0u8; 64]),
        Err(ClientError::ProtocolError(ProtocolFailure::Input))
    );
    assert_eq!(channels.peer_phase(&[0u8; 64]), None);
}

#[test]
fn public_key_is_the_configured_one() {
    let server = keypair();
    let (keys, client, _, _) = client(&server.public);
    assert_eq!(client.public_key(), &keys.public[..]);
}

#[test]
fn session_event_needs_the_server_channel() {
    let server = keypair();
    let (_, client, event_loop, mut channels) = client(&server.public);
    client.connect(&mut channels).unwrap();
    let envelope = SealedEnvelope {
        length: 33,
        encoding: Encoding::Blob,
        payload: vec![0; 33],
        broadcast: false,
    };
    let turn = event_loop.run(
        &mut channels,
        Source::Decoded(ResponseMessage::Opaque(OpaqueMessage::ServerMessage(envelope))),
    );
    assert_eq!(turn.item, Some(Err(ClientError::NotTransportState)));
    assert_eq!(channels.server_phase(), Some(Phase::Handshake));
}

#[test]
fn peer_message_needs_a_completed_handshake() {
    let server = keypair();
    let (_, client, event_loop, mut channels) = client(&server.public);
    let peer = keypair();
    client.connect_peer(&mut channels, &peer.public).unwrap();
    let envelope = SealedEnvelope {
        length: 20,
        encoding: Encoding::Blob,
        payload: vec![0; 20],
        broadcast: false,
    };
    let turn = event_loop.run(
        &mut channels,
        Source::Decoded(ResponseMessage::Opaque(OpaqueMessage::PeerMessage {
            public_key: peer.public.clone(),
            session_id: None,
            envelope,
        })),
    );
    assert_eq!(turn.item, Some(Err(ClientError::NotTransportState)));
    assert_eq!(channels.peer_phase(&peer.public), Some(Phase::Handshake));
}

#[test]
fn second_first_message_is_a_state_failure() {
    let server = keypair();
    let (_, client, _, mut channels) = client(&server.public);
    client.connect(&mut channels).unwrap();
    assert_eq!(
        client.connect(&mut channels),
        Err(ClientError::ProtocolError(ProtocolFailure::State))
    );
    assert_eq!(channels.server_phase(), Some(Phase::Handshake));
}

#[test]
fn server_request_beyond_a_noise_message_is_invalid_input() {
    let server = keypair();
    let (_, client, event_loop, mut channels) = client(&server.public);
    connect_server(&server, &client, &event_loop, &mut channels);
    // 5 bytes of framing and 1820 keys of 36 bytes each: 65525 bytes
    let keys = vec![vec![7u8; 32]; 1820];
    assert_eq!(
        client.new_session(&mut channels, keys),
        Err(ClientError::ProtocolError(ProtocolFailure::Input))
    );
    // 65517 bytes with their tag still fit
    let mut keys = vec![vec![7u8; 32]; 1819];
    keys.push(vec![7u8; 24]);
    let request = client.new_session(&mut channels, keys).unwrap();
    match request {
        RequestMessage::Opaque(OpaqueMessage::ServerMessage(envelope)) => {
            assert_eq!(envelope.length, 65517 + 16);
        }
        other => panic!("unexpected: {:?}", other),
    }
    assert_eq!(channels.server_phase(), Some(Phase::Transport));
}
