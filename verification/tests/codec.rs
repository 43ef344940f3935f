use relay_client::{
    decode_request, decode_response, decode_server_message, encode_request, encode_response,
    encode_server_message, ClientError, Encoding, HandshakeMessage, OpaqueMessage, RequestMessage,
    ResponseMessage, SealedEnvelope, ServerMessage, SessionId, SessionRequest, SessionState,
    TransparentMessage, MAX_FRAME_LENGTH,
};

fn envelope() -> SealedEnvelope {
    SealedEnvelope { length: 3, encoding: Encoding::Json, payload: vec![9, 8, 7], broadcast: true }
}

fn requests() -> Vec<RequestMessage> {
    vec![
        RequestMessage::Transparent(TransparentMessage::ServerHandshake(
            HandshakeMessage::Initiator(2, vec![5, 6, 7]),
        )),
        RequestMessage::Transparent(TransparentMessage::ServerHandshake(
            HandshakeMessage::Responder(0, vec![]),
        )),
        RequestMessage::Transparent(TransparentMessage::PeerHandshake {
            public_key: vec![1; 32],
            message: HandshakeMessage::Initiator(48, vec![0; 1024]),
        }),
        RequestMessage::Transparent(TransparentMessage::PeerHandshake {
            public_key: vec![],
            message: HandshakeMessage::Responder(usize::MAX, vec![255]),
        }),
        RequestMessage::Opaque(OpaqueMessage::ServerMessage(envelope())),
        RequestMessage::Opaque(OpaqueMessage::ServerMessage(SealedEnvelope {
            length: u32::MAX,
            encoding: Encoding::Noop,
            payload: vec![],
            broadcast: false,
        })),
        RequestMessage::Opaque(OpaqueMessage::PeerMessage {
            public_key: vec![0xAA, 0xBB],
            session_id: Some(SessionId(0x0102)),
            envelope: envelope(),
        }),
        RequestMessage::Opaque(OpaqueMessage::PeerMessage {
            public_key: vec![3; 32],
            session_id: None,
            envelope: SealedEnvelope {
                length: 16,
                encoding: Encoding::Blob,
                payload: vec![1; 16],
                broadcast: false,
            },
        }),
    ]
}

fn as_response(request: &RequestMessage) -> ResponseMessage {
    match request.clone() {
        RequestMessage::Transparent(inner) => ResponseMessage::Transparent(inner),
        RequestMessage::Opaque(inner) => ResponseMessage::Opaque(inner),
    }
}

fn server_messages() -> Vec<ServerMessage> {
    let state = SessionState {
        session_id: SessionId(u128::MAX),
        all_participants: vec![vec![1, 2, 3], vec![], vec![4; 32]],
    };
    vec![
        ServerMessage::Error(418, String::from("teapot")),
        ServerMessage::Error(0, String::new()),
        ServerMessage::Error(u16::MAX, String::from("gr\u{fc}\u{df}e \u{1f980}")),
        ServerMessage::NewSession(SessionRequest { participant_keys: vec![] }),
        ServerMessage::NewSession(SessionRequest {
            participant_keys: vec![vec![7; 32], vec![8; 32]],
        }),
        ServerMessage::SessionCreated(state.clone()),
        ServerMessage::SessionReadyNotify(SessionId(1)),
        ServerMessage::SessionReady(state.clone()),
        ServerMessage::SessionConnection { session_id: SessionId(2), peer_key: vec![9; 32] },
        ServerMessage::SessionActiveNotify(SessionId(3)),
        ServerMessage::SessionActive(state),
        ServerMessage::CloseSession(SessionId(4)),
        ServerMessage::SessionFinished(SessionId(0)),
    ]
}

#[test]
fn requests_round_trip() {
    for message in requests() {
        let frame = encode_request(&message).unwrap();
        assert_eq!(decode_request(&frame), Ok(message));
    }
}

#[test]
fn responses_round_trip() {
    for request in requests() {
        let message = as_response(&request);
        let frame = encode_response(&message).unwrap();
        assert_eq!(decode_response(&frame), Ok(message));
    }
}

#[test]
fn requests_and_responses_share_one_encoding() {
    for request in requests() {
        assert_eq!(encode_request(&request), encode_response(&as_response(&request)));
    }
}

#[test]
fn server_messages_round_trip() {
    for message in server_messages() {
        let plaintext = encode_server_message(&message).unwrap();
        assert_eq!(decode_server_message(&plaintext), Ok(message));
    }
}

#[test]
fn encoding_of_a_server_handshake() {
    let message = RequestMessage::Transparent(TransparentMessage::ServerHandshake(
        HandshakeMessage::Initiator(2, vec![5, 6, 7]),
    ));
    assert_eq!(
        encode_request(&message).unwrap(),
        vec![0, 0, 0, 2, 0, 0, 0, 0, 0, 0, 0, 3, 0, 0, 0, 5, 6, 7]
    );
}

#[test]
fn encoding_of_a_peer_message() {
    let message = RequestMessage::Opaque(OpaqueMessage::PeerMessage {
        public_key: vec![0xAA, 0xBB],
        session_id: Some(SessionId(0x0102)),
        envelope: envelope(),
    });
    let mut expected = vec![1u8, 1, 2, 0, 0, 0, 0xAA, 0xBB, 1, 2, 1];
    expected.extend_from_slice(&[0u8; 14]);
    expected.extend_from_slice(&[3, 0, 0, 0, 2, 3, 0, 0, 0, 9, 8, 7, 1]);
    assert_eq!(encode_request(&message).unwrap(), expected);
}

#[test]
fn encoding_of_a_server_error() {
    let message = ServerMessage::Error(418, String::from("teapot"));
    assert_eq!(
        encode_server_message(&message).unwrap(),
        vec![0, 0xA2, 0x01, 6, 0, 0, 0, b't', b'e', b'a', b'p', b'o', b't']
    );
}

#[test]
fn encoding_of_a_new_session() {
    let message = ServerMessage::NewSession(SessionRequest {
        participant_keys: vec![vec![1], vec![2, 3]],
    });
    assert_eq!(
        encode_server_message(&message).unwrap(),
        vec![1, 2, 0, 0, 0, 1, 0, 0, 0, 1, 2, 0, 0, 0, 2, 3]
    );
}

#[test]
fn truncated_frames_do_not_decode() {
    for message in requests() {
        let frame = encode_request(&message).unwrap();
        for cut in 0..frame.len().min(40) {
            assert_eq!(decode_request(&frame[..cut]), Err(ClientError::DecodeError));
        }
        assert_eq!(decode_request(&frame[..frame.len() - 1]), Err(ClientError::DecodeError));
    }
}

#[test]
fn trailing_bytes_do_not_decode() {
    for message in requests() {
        let mut frame = encode_request(&message).unwrap();
        frame.push(0);
        assert_eq!(decode_response(&frame), Err(ClientError::DecodeError));
    }
    for message in server_messages() {
        let mut plaintext = encode_server_message(&message).unwrap();
        plaintext.push(0);
        assert_eq!(decode_server_message(&plaintext), Err(ClientError::DecodeError));
    }
}

#[test]
fn unknown_tags_do_not_decode() {
    assert_eq!(decode_request(&[]), Err(ClientError::DecodeError));
    assert_eq!(decode_request(&[2]), Err(ClientError::DecodeError));
    assert_eq!(decode_request(&[0, 2]), Err(ClientError::DecodeError));
    assert_eq!(decode_request(&[1, 2]), Err(ClientError::DecodeError));
    assert_eq!(decode_server_message(&[]), Err(ClientError::DecodeError));
    assert_eq!(decode_server_message(&[10, 0, 0]), Err(ClientError::DecodeError));
    // an envelope whose encoding byte names no encoding
    let bad_encoding = vec![1u8, 0, 3, 0, 0, 0, 3, 0, 0, 0, 0, 0];
    assert_eq!(decode_request(&bad_encoding), Err(ClientError::DecodeError));
    // an envelope whose broadcast flag is neither 0 nor 1
    let bad_flag = vec![1u8, 0, 3, 0, 0, 0, 1, 0, 0, 0, 0, 2];
    assert_eq!(decode_request(&bad_flag), Err(ClientError::DecodeError));
    let good = vec![1u8, 0, 3, 0, 0, 0, 1, 0, 0, 0, 0, 1];
    assert_eq!(
        decode_request(&good),
        Ok(RequestMessage::Opaque(OpaqueMessage::ServerMessage(SealedEnvelope {
            length: 3,
            encoding: Encoding::Blob,
            payload: vec![],
            broadcast: true,
        })))
    );
}

#[test]
fn text_must_be_utf8() {
    assert_eq!(
        decode_server_message(&[0, 1, 0, 2, 0, 0, 0, 0xC3, 0x28]),
        Err(ClientError::DecodeError)
    );
    assert_eq!(
        decode_server_message(&[0, 1, 0, 2, 0, 0, 0, 0xC3, 0xA9]),
        Ok(ServerMessage::Error(1, String::from("\u{e9}")))
    );
}

#[test]
fn a_list_longer_than_the_plaintext_does_not_decode() {
    assert_eq!(
        decode_server_message(&[1, 0xFF, 0xFF, 0xFF, 0xFF, 0, 0, 0, 0]),
        Err(ClientError::DecodeError)
    );
}

#[test]
fn messages_beyond_a_frame_do_not_encode() {
    let fits = RequestMessage::Opaque(OpaqueMessage::ServerMessage(SealedEnvelope {
        length: 0,
        encoding: Encoding::Blob,
        payload: vec![0; MAX_FRAME_LENGTH - 12],
        broadcast: false,
    }));
    let frame = encode_request(&fits).unwrap();
    assert_eq!(frame.len(), MAX_FRAME_LENGTH);
    assert_eq!(decode_request(&frame), Ok(fits));

    let too_long = RequestMessage::Opaque(OpaqueMessage::ServerMessage(SealedEnvelope {
        length: 0,
        encoding: Encoding::Blob,
        payload: vec![0; MAX_FRAME_LENGTH - 11],
        broadcast: false,
    }));
    assert_eq!(encode_request(&too_long), Err(ClientError::EncodeError));

    let key = vec![0u8; MAX_FRAME_LENGTH];
    assert_eq!(
        encode_server_message(&ServerMessage::SessionConnection {
            session_id: SessionId(1),
            peer_key: key
        }),
        Err(ClientError::EncodeError)
    );
}

#[test]
fn frames_beyond_the_largest_do_not_decode() {
    let frame = vec![0u8; MAX_FRAME_LENGTH + 1];
    assert_eq!(decode_request(&frame), Err(ClientError::DecodeError));
    assert_eq!(decode_response(&frame), Err(ClientError::DecodeError));
}
