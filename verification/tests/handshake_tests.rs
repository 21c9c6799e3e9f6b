use std::sync::Arc;

use crypto::hmac::Hmac;
use crypto::mac::Mac;
use crypto::sha2::Sha256;
use nuckrelay::handshake::{handle_auth_message, handshake, HandshakeError, HandshakeMessage};
use nuckrelay::message::MessageError;
use nuckrelay::validator::{ValidationError, Validator};

fn token(key: &[u8], payload: &[u8]) -> Vec<u8> {
    let mut h = Hmac::new(Sha256::new(), key);
    h.input(payload);
    let mut t = vec![1u8];
    t.extend_from_slice(h.result().code());
    t.extend_from_slice(payload);
    t
}

fn peer_id_bytes() -> Vec<u8> {
    let mut id = b"sha-".to_vec();
    id.extend(std::iter::repeat(0u8).take(32));
    id
}

fn auth_msg(payload: &[u8]) -> Vec<u8> {
    let mut msg = vec![1u8, 6u8, 0x21, 0x12, 0xA4, 0x42];
    msg.extend_from_slice(&peer_id_bytes());
    msg.extend_from_slice(payload);
    msg
}

fn validator() -> Arc<Validator> {
    Arc::new(Validator::new(b"relay-secret".to_vec()))
}

#[test]
fn auth_message_accepted() {
    let msg = auth_msg(&token(b"relay-secret", b"99999999999"));
    let (raw, id) = handle_auth_message(&msg, validator()).unwrap();
    assert_eq!(raw, peer_id_bytes());
    assert_eq!(id, format!("sha-{}=", "A".repeat(43)));
}

#[test]
fn auth_message_bad_token() {
    let msg = auth_msg(&token(b"wrong", b"99999999999"));
    match handle_auth_message(&msg, validator()) {
        Err(HandshakeError::ValidationError(e)) => assert_eq!(e, ValidationError::InvalidSignature),
        other => panic!("unexpected {:?}", other),
    }
}

#[test]
fn auth_message_expired_token() {
    let msg = auth_msg(&token(b"relay-secret", b"1000000000"));
    match handle_auth_message(&msg, validator()) {
        Err(HandshakeError::ValidationError(e)) => assert_eq!(e, ValidationError::ExpiredToken),
        other => panic!("unexpected {:?}", other),
    }
}

#[test]
fn auth_message_malformed() {
    assert!(matches!(handle_auth_message(&[1, 6, 0x21], validator()), Err(HandshakeError::InvalidMsgLength)));
    let mut msg = auth_msg(b"");
    msg[2] = 0;
    assert!(matches!(handle_auth_message(&msg, validator()), Err(HandshakeError::InvalidMsgType)));
}

#[test]
fn handshake_succeeds() {
    let msg = auth_msg(&token(b"relay-secret", b"99999999999"));
    let (raw, id) = handshake(Some(Ok(HandshakeMessage::Binary(msg))), validator()).unwrap();
    assert_eq!(raw, peer_id_bytes());
    assert!(id.starts_with("sha-"));
}

#[test]
fn handshake_stream_errors() {
    assert!(matches!(handshake(None, validator()), Err(HandshakeError::StreamClosed)));
    match handshake(Some(Err("reset".to_string())), validator()) {
        Err(HandshakeError::WebSocketError(text)) => assert_eq!(text, "reset"),
        other => panic!("unexpected {:?}", other),
    }
    assert!(matches!(
        handshake(Some(Ok(HandshakeMessage::Other)), validator()),
        Err(HandshakeError::InvalidMsgLength)
    ));
}

#[test]
fn handshake_refuses_bad_messages() {
    let too_big = auth_msg(&vec![b'1'; 200]);
    assert!(too_big.len() > 212);
    assert!(matches!(handshake(Some(Ok(HandshakeMessage::Binary(too_big))), validator()), Err(HandshakeError::InvalidMsgLength)));
    assert!(matches!(handshake(Some(Ok(HandshakeMessage::Binary(vec![1]))), validator()), Err(HandshakeError::InvalidMsgLength)));
    assert!(matches!(handshake(Some(Ok(HandshakeMessage::Binary(vec![2, 6]))), validator()), Err(HandshakeError::UnsupportedVersion)));
    assert!(matches!(handshake(Some(Ok(HandshakeMessage::Binary(vec![1, 9]))), validator()), Err(HandshakeError::InvalidMsgType)));
    assert!(matches!(handshake(Some(Ok(HandshakeMessage::Binary(vec![1, 3, 0]))), validator()), Err(HandshakeError::InvalidMsgType)));
    assert!(matches!(handshake(Some(Ok(HandshakeMessage::Binary(vec![1, 6, 0x21]))), validator()), Err(HandshakeError::InvalidMsgLength)));
    let forged = auth_msg(&token(b"other", b"99999999999"));
    assert!(matches!(
        handshake(Some(Ok(HandshakeMessage::Binary(forged))), validator()),
        Err(HandshakeError::ValidationError(ValidationError::InvalidSignature))
    ));
}

#[test]
fn handshake_error_text() {
    assert_eq!(HandshakeError::InvalidMsgLength.to_string(), "Invalid handshake message length");
    assert_eq!(HandshakeError::WebSocketError("boom".to_string()).to_string(), "WebSocket error: boom");
    assert_eq!(HandshakeError::StreamClosed.to_string(), "WebSocket stream closed before handshake");
    assert_eq!(HandshakeError::UnsupportedVersion.to_string(), "Unsupported protocol version");
    assert_eq!(HandshakeError::InvalidMsgType.to_string(), "Invalid message type");
    assert_eq!(
        HandshakeError::ValidationError(ValidationError::ExpiredToken).to_string(),
        "Validation error: expired token"
    );
}

#[test]
fn handshake_error_from_message_error() {
    assert!(matches!(HandshakeError::from(MessageError::InvalidMsgLength), HandshakeError::InvalidMsgLength));
    assert!(matches!(HandshakeError::from(MessageError::InvalidMsgType), HandshakeError::InvalidMsgType));
}
