//! The relay handshake: the first message of a connection must be an auth
//! message that carries the peer id and a valid token.
use std::sync::Arc;
use vstd::prelude::*;
use vstd::string::*;

use crate::message::{
    determine_client_message_type, hash_id_to_string, spec_client_message_type,
    spec_hash_id_to_string, spec_unmarshal_auth_msg, unmarshal_auth_msg, MessageError,
    MessageType, CURRENT_PROTO_VERSION, MAX_HANDSHAKE_SIZE, PROTO_HEADER_SIZE,
};
use crate::validator::{
    hmac_input_fits, hmac_sha256, lemma_signed_token_verdict, spec_parse_i64, spec_validate,
    AuthAlgo, ValidationError, Validator, MIN_LENGTH_UNIX_TIMESTAMP,
};

verus! {

/// Why a handshake failed.
#[derive(Debug)]
pub enum HandshakeError {
    InvalidMsgLength,
    WebSocketError(String),
    UnsupportedVersion,
    StreamClosed,
    InvalidMsgType,
    ValidationError(ValidationError),
}

impl HandshakeError {
    pub open spec fn spec_text(self) -> Seq<char> {
        match self {
            HandshakeError::InvalidMsgLength => "Invalid handshake message length"@,
            HandshakeError::WebSocketError(msg) => "WebSocket error: "@ + msg@,
            HandshakeError::StreamClosed => "WebSocket stream closed before handshake"@,
            HandshakeError::UnsupportedVersion => "Unsupported protocol version"@,
            HandshakeError::InvalidMsgType => "Invalid message type"@,
            HandshakeError::ValidationError(e) => "Validation error: "@ + e.spec_text(),
        }
    }

    /// The human-readable description of the error.
    pub fn to_string(&self) -> (r: String)
        ensures
            r@ == self.spec_text(),
    {
        match self {
            HandshakeError::InvalidMsgLength => String::from_str("Invalid handshake message length"),
            HandshakeError::WebSocketError(msg) => {
                let mut text = String::from_str("WebSocket error: ");
                text.append(msg.as_str());
                text
            },
            HandshakeError::StreamClosed => String::from_str(
                "WebSocket stream closed before handshake",
            ),
            HandshakeError::UnsupportedVersion => String::from_str("Unsupported protocol version"),
            HandshakeError::InvalidMsgType => String::from_str("Invalid message type"),
            HandshakeError::ValidationError(e) => {
                let mut text = String::from_str("Validation error: ");
                let detail = e.to_string();
                text.append(detail.as_str());
                text
            },
        }
    }
}

/// The handshake error that stands for a message error.
pub open spec fn spec_handshake_error_from(error: MessageError) -> HandshakeError {
    match error {
        MessageError::InvalidMsgLength => HandshakeError::InvalidMsgLength,
        MessageError::InvalidMsgType => HandshakeError::InvalidMsgType,
    }
}

impl vstd::std_specs::convert::FromSpecImpl<MessageError> for HandshakeError {
    open spec fn obeys_from_spec() -> bool {
        true
    }

    open spec fn from_spec(error: MessageError) -> Self {
        spec_handshake_error_from(error)
    }
}

impl From<MessageError> for HandshakeError {
    fn from(error: MessageError) -> (r: Self) {
        match error {
            MessageError::InvalidMsgLength => HandshakeError::InvalidMsgLength,
            MessageError::InvalidMsgType => HandshakeError::InvalidMsgType,
        }
    }
}

/// An authenticated peer viewed as its raw id and its readable id.
pub open spec fn peer_result(r: Result<(Vec<u8>, String), HandshakeError>) -> Result<
    (Seq<u8>, Seq<char>),
    HandshakeError,
> {
    match r {
        Ok((raw, id)) => Ok((raw@, id@)),
        Err(e) => Err(e),
    }
}

/// The outcome of an auth message when the clock reads `now`: the raw and
/// the readable peer id, once the token in the payload is valid.
pub open spec fn spec_handle_auth_message(data: Seq<u8>, secret: Seq<u8>, now: Option<u64>) -> Result<
    (Seq<u8>, Seq<char>),
    HandshakeError,
> {
    match spec_unmarshal_auth_msg(data) {
        Err(e) => Err(spec_handshake_error_from(e)),
        Ok((raw_peer_id, auth_payload)) => match spec_validate(secret, auth_payload, now) {
            Err(e) => Err(HandshakeError::ValidationError(e)),
            Ok(()) => Ok((raw_peer_id, spec_hash_id_to_string(raw_peer_id))),
        },
    }
}

/// Handles an auth message: extracts the peer id and the token, validates
/// the token and returns the raw peer id with its readable form. The verdict
/// is the one for some reading of the clock.
pub fn handle_auth_message(data: &[u8], validator: Arc<Validator>) -> (r: Result<
    (Vec<u8>, String),
    HandshakeError,
>)
    requires
        hmac_input_fits((*validator)@.len() as int, data@.len() as int),
    ensures
        exists|now: Option<u64>|
            peer_result(r) == #[trigger] spec_handle_auth_message(data@, (*validator)@, now),
{
    let (raw_peer_id, auth_payload) = match unmarshal_auth_msg(data) {
        Ok(parts) => parts,
        Err(e) => {
            let r = Err(HandshakeError::from(e));
            assert(peer_result(r) == spec_handle_auth_message(data@, (*validator)@, None));
            return r;
        },
    };
    let verdict = validator.validate(auth_payload.as_slice());
    let ghost now = choose|now: Option<u64>|
        verdict == #[trigger] spec_validate((*validator)@, auth_payload@, now);
    if let Err(e) = verdict {
        let r = Err(HandshakeError::ValidationError(e));
        assert(peer_result(r) == spec_handle_auth_message(data@, (*validator)@, now));
        return r;
    }
    let peer_id = hash_id_to_string(raw_peer_id.as_slice());
    let r = Ok((raw_peer_id, peer_id));
    assert(peer_result(r) == spec_handle_auth_message(data@, (*validator)@, now));
    r
}


/// The first websocket message of a connection, by kind.
#[derive(Debug)]
pub enum HandshakeMessage {
    /// A binary message with its data.
    Binary(Vec<u8>),
    /// A text, ping, pong, close or raw frame message.
    Other,
}

/// The outcome of the data of a binary handshake message when the clock
/// reads `now`.
pub open spec fn spec_handshake_data(data: Seq<u8>, secret: Seq<u8>, now: Option<u64>) -> Result<
    (Seq<u8>, Seq<char>),
    HandshakeError,
> {
    if data.len() > MAX_HANDSHAKE_SIZE {
        Err(HandshakeError::InvalidMsgLength)
    } else if data.len() < PROTO_HEADER_SIZE {
        Err(HandshakeError::InvalidMsgLength)
    } else if data[0] as i64 != CURRENT_PROTO_VERSION {
        Err(HandshakeError::UnsupportedVersion)
    } else {
        match spec_client_message_type(data) {
            Err(e) => Err(spec_handshake_error_from(e)),
            Ok(msg_type) => if msg_type != MessageType::Auth {
                Err(HandshakeError::InvalidMsgType)
            } else {
                spec_handle_auth_message(data, secret, now)
            },
        }
    }
}

/// Decides the handshake from the first message that a connection received
/// (`None`: the stream closed; `Err`: the websocket error text). It must be a
/// binary auth message of the current protocol version, at most
/// `MAX_HANDSHAKE_SIZE` bytes long, that carries a valid token. The caller
/// sends the prepared auth response once this succeeds.
pub fn handshake(first: Option<Result<HandshakeMessage, String>>, validator: Arc<Validator>) -> (r:
    Result<(Vec<u8>, String), HandshakeError>)
    requires
        hmac_input_fits((*validator)@.len() as int, MAX_HANDSHAKE_SIZE as int),
    ensures
        match first {
            None => r matches Err(HandshakeError::StreamClosed),
            Some(Err(text)) => r matches Err(HandshakeError::WebSocketError(t)) && t == text,
            Some(Ok(HandshakeMessage::Other)) => r matches Err(HandshakeError::InvalidMsgLength),
            Some(Ok(HandshakeMessage::Binary(data))) => exists|now: Option<u64>|
                peer_result(r) == #[trigger] spec_handshake_data(data@, (*validator)@, now),
        },
{
    let message = match first {
        None => return Err(HandshakeError::StreamClosed),
        Some(Err(text)) => return Err(HandshakeError::WebSocketError(text)),
        Some(Ok(message)) => message,
    };
    let data = match message {
        HandshakeMessage::Binary(data) => data,
        HandshakeMessage::Other => return Err(HandshakeError::InvalidMsgLength),
    };
    if data.len() > MAX_HANDSHAKE_SIZE {
        let r = Err(HandshakeError::InvalidMsgLength);
        assert(peer_result(r) == spec_handshake_data(data@, (*validator)@, None));
        return r;
    }
    if data.len() < PROTO_HEADER_SIZE {
        let r = Err(HandshakeError::InvalidMsgLength);
        assert(peer_result(r) == spec_handshake_data(data@, (*validator)@, None));
        return r;
    }
    if data[0] != 1u8 {
        let r = Err(HandshakeError::UnsupportedVersion);
        assert(peer_result(r) == spec_handshake_data(data@, (*validator)@, None));
        return r;
    }
    let msg_type = match determine_client_message_type(data.as_slice()) {
        Ok(t) => t,
        Err(e) => {
            let r = Err(HandshakeError::from(e));
            assert(peer_result(r) == spec_handshake_data(data@, (*validator)@, None));
            return r;
        },
    };
    if msg_type != MessageType::Auth {
        let r = Err(HandshakeError::InvalidMsgType);
        assert(peer_result(r) == spec_handshake_data(data@, (*validator)@, None));
        return r;
    }
    let r = handle_auth_message(data.as_slice(), validator);
    let ghost now = choose|now: Option<u64>|
        peer_result(r) == #[trigger] spec_handle_auth_message(data@, (*validator)@, now);
    assert(peer_result(r) == spec_handshake_data(data@, (*validator)@, now));
    r
}


/// A handshake succeeds only on an auth message of the current version that
/// fits `MAX_HANDSHAKE_SIZE` and carries a valid token; the peer is then
/// known by the peer id of the message and its readable form.
pub proof fn lemma_handshake_success(data: Seq<u8>, secret: Seq<u8>, now: Option<u64>)
    requires
        spec_handshake_data(data, secret, now) is Ok,
    ensures
        spec_handshake_data(data, secret, now) matches Ok((raw_peer_id, peer_id)) && {
            &&& PROTO_HEADER_SIZE <= data.len() <= MAX_HANDSHAKE_SIZE
            &&& data[0] == CURRENT_PROTO_VERSION
            &&& data[1] == MessageType::Auth.spec_code()
            &&& spec_unmarshal_auth_msg(data) matches Ok((id, payload)) && id == raw_peer_id
                && spec_validate(secret, payload, now) is Ok
            &&& raw_peer_id.len() == crate::message::ID_SIZE
            &&& peer_id == spec_hash_id_to_string(raw_peer_id)
        },
{
}


/// An auth message of the current version with the cookie 21 12 A4 42, a
/// peer id of the wire size and a token signed with the shared secret over a
/// timestamp, and that fits `MAX_HANDSHAKE_SIZE`, is accepted as that peer
/// while the clock has not passed the timestamp, and refused as an expired
/// token once it has.
pub proof fn lemma_signed_handshake_verdict(
    raw_peer_id: Seq<u8>,
    secret: Seq<u8>,
    signature: Seq<u8>,
    payload: Seq<u8>,
    timestamp: i64,
    now: u64,
)
    requires
        raw_peer_id.len() == crate::message::ID_SIZE,
        signature == hmac_sha256(secret, payload),
        signature.len() == AuthAlgo::HmacSha256.spec_size(),
        payload.len() >= MIN_LENGTH_UNIX_TIMESTAMP,
        spec_parse_i64(payload) == Some(timestamp),
        6 + raw_peer_id.len() + 1 + signature.len() + payload.len() <= MAX_HANDSHAKE_SIZE,
    ensures
        ({
            let msg = seq![1u8, 6u8, 0x21u8, 0x12u8, 0xA4u8, 0x42u8] + raw_peer_id + (seq![1u8]
                + signature + payload);
            &&& now as i64 > timestamp ==> spec_handshake_data(msg, secret, Some(now)) == Err::<
                (Seq<u8>, Seq<char>),
                HandshakeError,
            >(HandshakeError::ValidationError(ValidationError::ExpiredToken))
            &&& now as i64 <= timestamp ==> spec_handshake_data(msg, secret, Some(now)) == Ok::<
                (Seq<u8>, Seq<char>),
                HandshakeError,
            >((raw_peer_id, spec_hash_id_to_string(raw_peer_id)))
        }),
{
    let header = seq![1u8, 6u8, 0x21u8, 0x12u8, 0xA4u8, 0x42u8];
    let token = seq![1u8] + signature + payload;
    let msg = header + raw_peer_id + token;
    assert(msg[0] == 1u8 && msg[1] == 6u8);
    assert(msg.subrange(2, 6) =~= crate::message::magic_header());
    assert(msg.subrange(6, 42) =~= raw_peer_id);
    assert(msg.subrange(42, msg.len() as int) =~= token);
    lemma_signed_token_verdict(secret, signature, payload, timestamp, Some(now));
}

} // verus!

