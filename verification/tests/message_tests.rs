use nuckrelay::message::{
    determine_client_message_type, hash_id_to_string, marshal_auth_response,
    marshal_health_check, unmarshal_auth_msg, unmarshal_transport_id, update_transport_msg,
    MessageError, MessageType, HEADER_TOTAL_SIZE_AUTH, MAX_HANDSHAKE_RESP_SIZE,
};

fn auth_msg(peer_id: &[u8], payload: &[u8]) -> Vec<u8> {
    let mut msg = vec![1u8, 6u8, 0x21, 0x12, 0xA4, 0x42];
    msg.extend_from_slice(peer_id);
    msg.extend_from_slice(payload);
    msg
}

fn peer_id_bytes(fill: u8) -> Vec<u8> {
    let mut id = b"sha-".to_vec();
    id.extend(std::iter::repeat(fill).take(32));
    id
}

#[test]
fn client_message_types() {
    assert_eq!(determine_client_message_type(&[1, 1]), Ok(MessageType::Hello));
    assert_eq!(determine_client_message_type(&[1, 3, 9]), Ok(MessageType::Transport));
    assert_eq!(determine_client_message_type(&[1, 4]), Ok(MessageType::Close));
    assert_eq!(determine_client_message_type(&[1, 5]), Ok(MessageType::HealthCheck));
    assert_eq!(determine_client_message_type(&[1, 6]), Ok(MessageType::Auth));
}

#[test]
fn client_message_type_errors() {
    assert_eq!(determine_client_message_type(&[]), Err(MessageError::InvalidMsgLength));
    assert_eq!(determine_client_message_type(&[1]), Err(MessageError::InvalidMsgLength));
    assert_eq!(determine_client_message_type(&[1, 0]), Err(MessageError::InvalidMsgType));
    assert_eq!(determine_client_message_type(&[1, 2]), Err(MessageError::InvalidMsgType));
    assert_eq!(determine_client_message_type(&[1, 7]), Err(MessageError::InvalidMsgType));
    assert_eq!(determine_client_message_type(&[1, 200]), Err(MessageError::InvalidMsgType));
}

#[test]
fn message_type_codes() {
    assert_eq!(MessageType::Unknown.code(), 0);
    assert_eq!(MessageType::HelloResponse.code(), 2);
    assert_eq!(MessageType::AuthResponse.code(), 7);
    assert_eq!(MessageType::Auth.code(), 6);
}

#[test]
fn message_error_text() {
    assert_eq!(MessageError::InvalidMsgLength.to_string(), "Invalid message length");
    assert_eq!(MessageError::InvalidMsgType.to_string(), "Invalid message type");
}

#[test]
fn auth_response_layout() {
    let msg = marshal_auth_response("rel://relay.example.com:443").unwrap();
    let mut expected = vec![1u8, 7u8];
    expected.extend_from_slice(b"rel://relay.example.com:443");
    assert_eq!(msg, expected);
}

#[test]
fn auth_response_utf8_bytes() {
    let msg = marshal_auth_response("rel://é").unwrap();
    assert_eq!(msg, vec![1, 7, b'r', b'e', b'l', b':', b'/', b'/', 0xC3, 0xA9]);
}

#[test]
fn auth_response_size_limit() {
    let fits = "a".repeat(MAX_HANDSHAKE_RESP_SIZE - 2);
    assert_eq!(marshal_auth_response(&fits).unwrap().len(), MAX_HANDSHAKE_RESP_SIZE);
    let too_long = "a".repeat(MAX_HANDSHAKE_RESP_SIZE - 1);
    assert_eq!(marshal_auth_response(&too_long), Err(MessageError::InvalidMsgLength));
}

#[test]
fn auth_msg_split() {
    let id = peer_id_bytes(7);
    let msg = auth_msg(&id, b"token-bytes");
    let (peer_id, payload) = unmarshal_auth_msg(&msg).unwrap();
    assert_eq!(peer_id, id);
    assert_eq!(payload, b"token-bytes".to_vec());
}

#[test]
fn auth_msg_without_payload() {
    let id = peer_id_bytes(1);
    let msg = auth_msg(&id, b"");
    assert_eq!(msg.len(), HEADER_TOTAL_SIZE_AUTH);
    let (peer_id, payload) = unmarshal_auth_msg(&msg).unwrap();
    assert_eq!(peer_id, id);
    assert!(payload.is_empty());
}

#[test]
fn auth_msg_too_short() {
    let msg = auth_msg(&[0u8; 35], b"");
    assert_eq!(unmarshal_auth_msg(&msg), Err(MessageError::InvalidMsgLength));
}

#[test]
fn auth_msg_bad_magic() {
    let mut msg = auth_msg(&peer_id_bytes(2), b"x");
    msg[5] = 0x43;
    assert_eq!(unmarshal_auth_msg(&msg), Err(MessageError::InvalidMsgType));
}

#[test]
fn hash_id_readable_form() {
    assert_eq!(hash_id_to_string(b"sha-hello"), "sha-aGVsbG8=");
    assert_eq!(hash_id_to_string(b"sha-hi"), "sha-aGk=");
    assert_eq!(hash_id_to_string(b"sha-abc"), "sha-YWJj");
    assert_eq!(hash_id_to_string(&[b's', b'h', b'a', b'-', 0xff, 0xfe]), "sha-//4=");
    assert_eq!(hash_id_to_string(&[b's', b'h', b'a', b'-', 0xfb, 0xef, 0xbe]), "sha-++++");
}

#[test]
fn hash_id_of_full_peer_id() {
    let id = peer_id_bytes(0);
    assert_eq!(hash_id_to_string(&id), format!("sha-{}=", "A".repeat(43)));
}

#[test]
fn hash_id_short_ids_are_text() {
    assert_eq!(hash_id_to_string(b"sha-"), "sha-");
    assert_eq!(hash_id_to_string(b"ab"), "ab");
    assert_eq!(hash_id_to_string(b""), "");
    assert_eq!(hash_id_to_string(&[0xff]), "\u{FFFD}");
}

#[test]
fn transport_id_extraction() {
    let mut msg = vec![1u8, 3u8];
    msg.extend_from_slice(&peer_id_bytes(9));
    msg.extend_from_slice(b"data");
    assert_eq!(unmarshal_transport_id(&msg).unwrap(), peer_id_bytes(9));
    assert_eq!(unmarshal_transport_id(&msg[..37]), Err(MessageError::InvalidMsgLength));
}

#[test]
fn transport_id_update_roundtrip() {
    let mut msg = vec![1u8, 3u8];
    msg.extend_from_slice(&peer_id_bytes(9));
    msg.extend_from_slice(b"payload");
    let sender = peer_id_bytes(4);
    update_transport_msg(&mut msg, &sender).unwrap();
    assert_eq!(unmarshal_transport_id(&msg).unwrap(), sender);
    assert_eq!(&msg[..2], &[1u8, 3u8]);
    assert_eq!(&msg[38..], b"payload");
    assert_eq!(determine_client_message_type(&msg), Ok(MessageType::Transport));
}

#[test]
fn transport_id_update_too_short() {
    let mut msg = vec![1u8, 3u8, 5u8];
    let before = msg.clone();
    assert_eq!(update_transport_msg(&mut msg, &[1, 2]), Err(MessageError::InvalidMsgLength));
    assert_eq!(msg, before);
    let mut tiny = vec![1u8];
    assert_eq!(update_transport_msg(&mut tiny, &[]), Err(MessageError::InvalidMsgLength));
    let mut exact = vec![1u8, 3u8, 0, 0];
    update_transport_msg(&mut exact, &[8, 9]).unwrap();
    assert_eq!(exact, vec![1, 3, 8, 9]);
}

#[test]
fn health_check_message() {
    assert_eq!(marshal_health_check(), vec![1u8, 5u8]);
}
