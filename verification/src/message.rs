//! Relay wire messages: header layout, message types and the marshalling
//! of the auth and transport messages.
use base64::Engine;
use vstd::prelude::*;
use vstd::slice::*;
use vstd::string::*;
use vstd::utf8::*;

verus! {

/// Errors raised while reading or building a relay message.
#[derive(Debug, Clone, Copy, PartialEq, Eq, Structural)]
pub enum MessageError {
    InvalidMsgLength,
    InvalidMsgType,
}

/// The message types of the relay protocol.
#[derive(Debug, Clone, Copy, PartialEq, Eq, Structural)]
pub enum MessageType {
    Unknown,
    /// Deprecated: `Auth` replaces it.
    Hello,
    /// Deprecated: `AuthResponse` replaces it.
    HelloResponse,
    Transport,
    Close,
    HealthCheck,
    Auth,
    AuthResponse,
}

pub const MAX_HANDSHAKE_SIZE: usize = 212;

pub const MAX_HANDSHAKE_RESP_SIZE: usize = 8192;

pub const SIZE_OF_VERSION_BYTE: usize = 1;

pub const SIZE_OF_MSG_TYPE: usize = 1;

pub const PROTO_HEADER_SIZE: usize = SIZE_OF_VERSION_BYTE + SIZE_OF_MSG_TYPE;

pub const CURRENT_PROTO_VERSION: i64 = 1;

pub const OFFSET_TRANSPORT_ID: usize = PROTO_HEADER_SIZE;

/// Length of the magic cookie of an auth message.
pub const SIZE_OF_MAGIC_BYTE: usize = 4;

/// Length of a peer id on the wire.
pub const ID_SIZE: usize = 36;

pub const HEADER_TOTAL_SIZE_AUTH: usize = PROTO_HEADER_SIZE + SIZE_OF_MAGIC_BYTE + ID_SIZE;

pub const OFFSET_MAGIC_BYTE: usize = PROTO_HEADER_SIZE;

pub const OFFSET_AUTH_PEER_ID: usize = PROTO_HEADER_SIZE + SIZE_OF_MAGIC_BYTE;

pub const HEADER_SIZE_TRANSPORT: usize = ID_SIZE;

pub const HEADER_TOTAL_SIZE_TRANSPORT: usize = PROTO_HEADER_SIZE + HEADER_SIZE_TRANSPORT;

/// The magic cookie that follows the header of an auth message.
pub open spec fn magic_header() -> Seq<u8> {
    seq![0x21u8, 0x12u8, 0xA4u8, 0x42u8]
}

impl MessageType {
    /// The byte that stands for this type on the wire.
    pub open spec fn spec_code(&self) -> u8 {
        match self {
            MessageType::Unknown => 0,
            MessageType::Hello => 1,
            MessageType::HelloResponse => 2,
            MessageType::Transport => 3,
            MessageType::Close => 4,
            MessageType::HealthCheck => 5,
            MessageType::Auth => 6,
            MessageType::AuthResponse => 7,
        }
    }

    /// The byte that stands for this type on the wire.
    #[verifier::when_used_as_spec(spec_code)]
    pub fn code(&self) -> (r: u8)
        ensures
            r == self.spec_code(),
    {
        match self {
            MessageType::Unknown => 0,
            MessageType::Hello => 1,
            MessageType::HelloResponse => 2,
            MessageType::Transport => 3,
            MessageType::Close => 4,
            MessageType::HealthCheck => 5,
            MessageType::Auth => 6,
            MessageType::AuthResponse => 7,
        }
    }
}

impl MessageError {
    pub open spec fn spec_text(self) -> Seq<char> {
        match self {
            MessageError::InvalidMsgLength => "Invalid message length"@,
            MessageError::InvalidMsgType => "Invalid message type"@,
        }
    }

    /// The human-readable description of the error.
    pub fn to_string(&self) -> (r: String)
        ensures
            r@ == self.spec_text(),
    {
        match self {
            MessageError::InvalidMsgLength => String::from_str("Invalid message length"),
            MessageError::InvalidMsgType => String::from_str("Invalid message type"),
        }
    }
}

/// The type that a client message announces in its second byte.
pub open spec fn spec_client_message_type(data: Seq<u8>) -> Result<MessageType, MessageError> {
    if data.len() < PROTO_HEADER_SIZE {
        Err(MessageError::InvalidMsgLength)
    } else if data[1] == 1 {
        Ok(MessageType::Hello)
    } else if data[1] == 3 {
        Ok(MessageType::Transport)
    } else if data[1] == 4 {
        Ok(MessageType::Close)
    } else if data[1] == 5 {
        Ok(MessageType::HealthCheck)
    } else if data[1] == 6 {
        Ok(MessageType::Auth)
    } else {
        Err(MessageError::InvalidMsgType)
    }
}

/// Reads the type of a message sent by a client. Only the types that a client
/// may send are accepted.
pub fn determine_client_message_type(data: &[u8]) -> (r: Result<MessageType, MessageError>)
    ensures
        r == spec_client_message_type(data@),
{
    if data.len() < PROTO_HEADER_SIZE {
        return Err(MessageError::InvalidMsgLength);
    }
    let msg_type = data[1];
    match msg_type {
        1 => Ok(MessageType::Hello),
        3 => Ok(MessageType::Transport),
        4 => Ok(MessageType::Close),
        5 => Ok(MessageType::HealthCheck),
        6 => Ok(MessageType::Auth),
        _ => Err(MessageError::InvalidMsgType),
    }
}


/// A byte-sequence result viewed as the result of its contents.
pub open spec fn bytes_result<E>(r: Result<Vec<u8>, E>) -> Result<Seq<u8>, E> {
    match r {
        Ok(v) => Ok(v@),
        Err(e) => Err(e),
    }
}

/// The auth response that carries the server's instance URL.
pub open spec fn spec_auth_response(address: Seq<u8>) -> Result<Seq<u8>, MessageError> {
    let msg = seq![CURRENT_PROTO_VERSION as u8, MessageType::AuthResponse.spec_code()] + address;
    if msg.len() > MAX_HANDSHAKE_RESP_SIZE {
        Err(MessageError::InvalidMsgLength)
    } else {
        Ok(msg)
    }
}

/// Creates the response to an auth message: the protocol version, the
/// `AuthResponse` type and the UTF-8 bytes of the server's instance URL, which
/// peers use to find a common relay. A response longer than
/// `MAX_HANDSHAKE_RESP_SIZE` is refused.
pub fn marshal_auth_response(address: &str) -> (r: Result<Vec<u8>, MessageError>)
    ensures
        bytes_result(r) == spec_auth_response(address.spec_bytes()),
{
    let address_bytes = address.as_bytes();
    let n = address_bytes.len();
    if n > MAX_HANDSHAKE_RESP_SIZE - PROTO_HEADER_SIZE {
        return Err(MessageError::InvalidMsgLength);
    }
    let mut msg: Vec<u8> = Vec::with_capacity(PROTO_HEADER_SIZE + n);
    msg.push(1u8);
    msg.push(MessageType::AuthResponse.code());
    let ghost header = seq![CURRENT_PROTO_VERSION as u8, MessageType::AuthResponse.spec_code()];
    for i in 0..n
        invariant
            n == address_bytes@.len(),
            msg@ == header + address_bytes@.subrange(0, i as int),
    {
        msg.push(address_bytes[i]);
        assert(address_bytes@.subrange(0, i + 1) == address_bytes@.subrange(0, i as int).push(
            address_bytes@[i as int],
        ));
    }
    assert(address_bytes@.subrange(0, n as int) == address_bytes@);
    Ok(msg)
}

/// The peer id and the auth payload carried by an auth message.
pub open spec fn spec_unmarshal_auth_msg(msg: Seq<u8>) -> Result<(Seq<u8>, Seq<u8>), MessageError> {
    if msg.len() < HEADER_TOTAL_SIZE_AUTH {
        Err(MessageError::InvalidMsgLength)
    } else if msg.subrange(OFFSET_MAGIC_BYTE as int, OFFSET_AUTH_PEER_ID as int) != magic_header() {
        Err(MessageError::InvalidMsgType)
    } else {
        Ok(
            (
                msg.subrange(OFFSET_AUTH_PEER_ID as int, HEADER_TOTAL_SIZE_AUTH as int),
                msg.subrange(HEADER_TOTAL_SIZE_AUTH as int, msg.len() as int),
            ),
        )
    }
}

/// Extracts the peer id and the auth payload from an auth message, after
/// checking its length and its magic cookie.
pub fn unmarshal_auth_msg(msg: &[u8]) -> (r: Result<(Vec<u8>, Vec<u8>), MessageError>)
    ensures
        match r {
            Ok((peer_id, payload)) => spec_unmarshal_auth_msg(msg@) == Ok::<
                (Seq<u8>, Seq<u8>),
                MessageError,
            >((peer_id@, payload@)),
            Err(e) => spec_unmarshal_auth_msg(msg@) == Err::<(Seq<u8>, Seq<u8>), MessageError>(e),
        },
{
    if msg.len() < HEADER_TOTAL_SIZE_AUTH {
        return Err(MessageError::InvalidMsgLength);
    }
    if msg[2] != 0x21u8 || msg[3] != 0x12u8 || msg[4] != 0xA4u8 || msg[5] != 0x42u8 {
        proof {
            let m = msg@.subrange(OFFSET_MAGIC_BYTE as int, OFFSET_AUTH_PEER_ID as int);
            assert(m[0] == msg@[2] && m[1] == msg@[3] && m[2] == msg@[4] && m[3] == msg@[5]);
            assert(m != magic_header());
        }
        return Err(MessageError::InvalidMsgType);
    }
    assert(msg@.subrange(OFFSET_MAGIC_BYTE as int, OFFSET_AUTH_PEER_ID as int) == magic_header());
    let peer_id = slice_to_vec(slice_subrange(msg, OFFSET_AUTH_PEER_ID, HEADER_TOTAL_SIZE_AUTH));
    let auth_payload = slice_to_vec(slice_subrange(msg, HEADER_TOTAL_SIZE_AUTH, msg.len()));
    Ok((peer_id, auth_payload))
}

/// The destination peer id carried by a transport message.
pub open spec fn spec_unmarshal_transport_id(buf: Seq<u8>) -> Result<Seq<u8>, MessageError> {
    if buf.len() < HEADER_TOTAL_SIZE_TRANSPORT {
        Err(MessageError::InvalidMsgLength)
    } else {
        Ok(buf.subrange(OFFSET_TRANSPORT_ID as int, HEADER_TOTAL_SIZE_TRANSPORT as int))
    }
}

/// Extracts the peer id from a transport message.
pub fn unmarshal_transport_id(buf: &[u8]) -> (r: Result<Vec<u8>, MessageError>)
    ensures
        bytes_result(r) == spec_unmarshal_transport_id(buf@),
{
    if buf.len() < HEADER_TOTAL_SIZE_TRANSPORT {
        return Err(MessageError::InvalidMsgLength);
    }
    Ok(slice_to_vec(slice_subrange(buf, OFFSET_TRANSPORT_ID, HEADER_TOTAL_SIZE_TRANSPORT)))
}

/// A transport message whose peer id field has been overwritten with `peer_id`.
pub open spec fn spec_update_transport_msg(msg: Seq<u8>, peer_id: Seq<u8>) -> Result<
    Seq<u8>,
    MessageError,
> {
    if msg.len() < OFFSET_TRANSPORT_ID + peer_id.len() {
        Err(MessageError::InvalidMsgLength)
    } else {
        Ok(
            msg.subrange(0, OFFSET_TRANSPORT_ID as int) + peer_id + msg.subrange(
                OFFSET_TRANSPORT_ID + peer_id.len(),
                msg.len() as int,
            ),
        )
    }
}

/// Writes `peer_id` over the peer id field of a transport message. On error
/// the message is left as it was.
pub fn update_transport_msg(msg: &mut [u8], peer_id: &[u8]) -> (r: Result<(), MessageError>)
    ensures
        match spec_update_transport_msg(old(msg)@, peer_id@) {
            Ok(updated) => r is Ok && final(msg)@ == updated,
            Err(e) => r == Err::<(), MessageError>(e) && final(msg)@ == old(msg)@,
        },
{
    let n = peer_id.len();
    if msg.len() < OFFSET_TRANSPORT_ID || msg.len() - OFFSET_TRANSPORT_ID < n {
        return Err(MessageError::InvalidMsgLength);
    }
    let ghost original = msg@;
    for i in 0..n
        invariant
            n == peer_id@.len(),
            msg@.len() == original.len(),
            OFFSET_TRANSPORT_ID + n <= original.len(),
            OFFSET_TRANSPORT_ID + n <= msg.len(),
            forall|j: int|
                0 <= j < msg@.len() ==> #[trigger] msg@[j] == if OFFSET_TRANSPORT_ID <= j
                    < OFFSET_TRANSPORT_ID + i {
                    peer_id@[j - OFFSET_TRANSPORT_ID]
                } else {
                    original[j]
                },
    {
        msg[OFFSET_TRANSPORT_ID + i] = peer_id[i];
    }
    assert(msg@ =~= original.subrange(0, OFFSET_TRANSPORT_ID as int) + peer_id@ + original.subrange(
        OFFSET_TRANSPORT_ID + n,
        original.len() as int,
    ));
    Ok(())
}

/// The health check message that the relay sends to its peers.
pub open spec fn spec_health_check_msg() -> Seq<u8> {
    seq![CURRENT_PROTO_VERSION as u8, MessageType::HealthCheck.spec_code()]
}

/// Creates a health check message: the protocol version and the
/// `HealthCheck` type.
pub fn marshal_health_check() -> (r: Vec<u8>)
    ensures
        r@ == spec_health_check_msg(),
{
    let mut msg: Vec<u8> = Vec::with_capacity(PROTO_HEADER_SIZE);
    msg.push(1u8);
    msg.push(MessageType::HealthCheck.code());
    msg
}

/// The character of the standard base64 alphabet for the 6-bit value `v`.
pub open spec fn base64_char(v: int) -> char {
    if v < 26 {
        (65 + v) as char
    } else if v < 52 {
        (97 + v - 26) as char
    } else if v < 62 {
        (48 + v - 52) as char
    } else if v == 62 {
        '+'
    } else {
        '/'
    }
}

/// Standard base64 (RFC 4648 alphabet, with `=` padding) of `data`.
pub open spec fn base64_standard(data: Seq<u8>) -> Seq<char>
    decreases data.len(),
{
    if data.len() == 0 {
        seq![]
    } else if data.len() == 1 {
        let b0 = data[0] as int;
        seq![base64_char(b0 / 4), base64_char((b0 % 4) * 16), '=', '=']
    } else if data.len() == 2 {
        let b0 = data[0] as int;
        let b1 = data[1] as int;
        seq![base64_char(b0 / 4), base64_char((b0 % 4) * 16 + b1 / 16), base64_char((b1 % 16) * 4), '=']
    } else {
        let b0 = data[0] as int;
        let b1 = data[1] as int;
        let b2 = data[2] as int;
        seq![
            base64_char(b0 / 4),
            base64_char((b0 % 4) * 16 + b1 / 16),
            base64_char((b1 % 16) * 4 + b2 / 64),
            base64_char(b2 % 64),
        ] + base64_standard(data.subrange(3, data.len() as int))
    }
}

/// Whether base64 can size its output buffer for `n` input bytes: four
/// characters for each full group of three bytes, and four more for a
/// partial group.
pub open spec fn base64_len_fits(n: int) -> bool {
    if n % 3 == 0 {
        n / 3 * 4 <= usize::MAX
    } else {
        n / 3 * 4 + 4 <= usize::MAX
    }
}

/// Calls `base64::Engine::encode` on the `STANDARD` engine (standard
/// alphabet, with padding). Its contract claims that the output is the
/// RFC 4648 standard base64 of the input; the engine panics when the size of
/// the output does not fit in `usize`, which `requires` rules out.
#[verifier::external_body]
fn encode_base64_standard(data: &[u8]) -> (r: String)
    requires
        base64_len_fits(data@.len() as int),
    ensures
        r@ == base64_standard(data@),
{
    base64::engine::general_purpose::STANDARD.encode(data)
}

/// What `String::from_utf8_lossy` makes of a byte sequence.
pub uninterp spec fn utf8_lossy(bytes: Seq<u8>) -> Seq<char>;

/// Calls `String::from_utf8_lossy` and takes the result as an owned `String`.
/// Its contract names the result `utf8_lossy` of the bytes and claims what the
/// documentation says: valid UTF-8 is decoded unchanged. What replaces the
/// invalid sequences is left unsaid.
#[verifier::external_body]
fn from_utf8_lossy(bytes: &[u8]) -> (r: String)
    ensures
        r@ == utf8_lossy(bytes@),
        valid_utf8(bytes@) ==> r@ == decode_utf8(bytes@),
{
    String::from_utf8_lossy(bytes).into_owned()
}

/// Length of the readable prefix of a hashed peer id.
pub const PREFIX_LENGTH: usize = 4;

/// The readable form of a hashed peer id: its first four bytes as text,
/// then the base64 of the rest.
pub open spec fn spec_hash_id_to_string(id_hash: Seq<u8>) -> Seq<char> {
    if id_hash.len() <= PREFIX_LENGTH {
        utf8_lossy(id_hash)
    } else {
        utf8_lossy(id_hash.subrange(0, PREFIX_LENGTH as int)) + base64_standard(
            id_hash.subrange(PREFIX_LENGTH as int, id_hash.len() as int),
        )
    }
}

/// Whether a hashed peer id is short enough for its base64 part to be sized.
pub open spec fn hash_id_len_fits(n: int) -> bool {
    n <= PREFIX_LENGTH || base64_len_fits(n - PREFIX_LENGTH)
}

/// Converts a hashed peer id to a human-readable string: the first four
/// bytes (usually `sha-`) as text, then the base64 of the remaining bytes.
pub fn hash_id_to_string(id_hash: &[u8]) -> (r: String)
    requires
        hash_id_len_fits(id_hash@.len() as int),
    ensures
        r@ == spec_hash_id_to_string(id_hash@),
        id_hash@.len() <= PREFIX_LENGTH && valid_utf8(id_hash@) ==> r@ == decode_utf8(id_hash@),
        id_hash@.len() > PREFIX_LENGTH && valid_utf8(id_hash@.subrange(0, PREFIX_LENGTH as int))
            ==> r@ == decode_utf8(id_hash@.subrange(0, PREFIX_LENGTH as int)) + base64_standard(
            id_hash@.subrange(PREFIX_LENGTH as int, id_hash@.len() as int),
        ),
{
    if id_hash.len() <= PREFIX_LENGTH {
        return from_utf8_lossy(id_hash);
    }
    let mut text = from_utf8_lossy(slice_subrange(id_hash, 0, PREFIX_LENGTH));
    let encoded = encode_base64_standard(slice_subrange(id_hash, PREFIX_LENGTH, id_hash.len()));
    text.append(encoded.as_str());
    text
}


/// A client message is read as one of the types that a client may send, and
/// its type byte is the code of that type.
pub proof fn lemma_client_message_type(data: Seq<u8>)
    ensures
        spec_client_message_type(data) matches Ok(t) ==> {
            &&& t != MessageType::Unknown
            &&& t != MessageType::HelloResponse
            &&& t != MessageType::AuthResponse
            &&& t.spec_code() == data[1]
        },
{
}

/// The auth response is built exactly when the address fits, and it holds
/// the version, the `AuthResponse` type and the address.
pub proof fn lemma_auth_response_layout(address: Seq<u8>)
    ensures
        spec_auth_response(address) is Ok <==> address.len() + PROTO_HEADER_SIZE
            <= MAX_HANDSHAKE_RESP_SIZE,
        spec_auth_response(address) matches Ok(m) ==> {
            &&& m.len() == address.len() + PROTO_HEADER_SIZE
            &&& m[0] == CURRENT_PROTO_VERSION
            &&& m[1] == MessageType::AuthResponse.spec_code()
            &&& m.subrange(PROTO_HEADER_SIZE as int, m.len() as int) == address
        },
{
    let m = seq![CURRENT_PROTO_VERSION as u8, MessageType::AuthResponse.spec_code()] + address;
    assert(m.subrange(PROTO_HEADER_SIZE as int, m.len() as int) =~= address);
}

/// An auth message splits into its header, a peer id of the wire size and
/// the auth payload, which together give the message back.
pub proof fn lemma_auth_msg_split(msg: Seq<u8>)
    requires
        spec_unmarshal_auth_msg(msg) is Ok,
    ensures
        spec_unmarshal_auth_msg(msg) matches Ok((peer_id, payload)) && {
            &&& peer_id.len() == ID_SIZE
            &&& msg == msg.subrange(0, OFFSET_AUTH_PEER_ID as int) + peer_id + payload
        },
{
    let peer_id = msg.subrange(OFFSET_AUTH_PEER_ID as int, HEADER_TOTAL_SIZE_AUTH as int);
    let payload = msg.subrange(HEADER_TOTAL_SIZE_AUTH as int, msg.len() as int);
    assert(msg =~= msg.subrange(0, OFFSET_AUTH_PEER_ID as int) + peer_id + payload);
}

/// Writing a peer id of the wire size into a transport message and reading
/// the peer id back gives the written id; the message keeps its length, its
/// header and its data.
pub proof fn lemma_transport_id_roundtrip(msg: Seq<u8>, peer_id: Seq<u8>)
    requires
        msg.len() >= HEADER_TOTAL_SIZE_TRANSPORT,
        peer_id.len() == ID_SIZE,
    ensures
        spec_update_transport_msg(msg, peer_id) matches Ok(updated) && {
            &&& spec_unmarshal_transport_id(updated) == Ok::<Seq<u8>, MessageError>(peer_id)
            &&& updated.len() == msg.len()
            &&& updated.subrange(0, PROTO_HEADER_SIZE as int) == msg.subrange(
                0,
                PROTO_HEADER_SIZE as int,
            )
            &&& updated.subrange(HEADER_TOTAL_SIZE_TRANSPORT as int, updated.len() as int)
                == msg.subrange(HEADER_TOTAL_SIZE_TRANSPORT as int, msg.len() as int)
            &&& spec_client_message_type(updated) == spec_client_message_type(msg)
        },
{
    let updated = msg.subrange(0, OFFSET_TRANSPORT_ID as int) + peer_id + msg.subrange(
        OFFSET_TRANSPORT_ID + peer_id.len(),
        msg.len() as int,
    );
    assert(updated.subrange(OFFSET_TRANSPORT_ID as int, HEADER_TOTAL_SIZE_TRANSPORT as int)
        =~= peer_id);
    assert(updated.subrange(0, PROTO_HEADER_SIZE as int) =~= msg.subrange(
        0,
        PROTO_HEADER_SIZE as int,
    ));
    assert(updated.subrange(HEADER_TOTAL_SIZE_TRANSPORT as int, updated.len() as int)
        =~= msg.subrange(HEADER_TOTAL_SIZE_TRANSPORT as int, msg.len() as int));
    assert(updated[1] == msg[1]);
}


/// The type of a client message is decided by its second byte alone, once it
/// has a full header, however long the message is: 1, 3, 4, 5 and 6 are
/// `Hello`, `Transport`, `Close`, `HealthCheck` and `Auth`; every other byte
/// is refused as an invalid type. Only a message shorter than the header is
/// refused for its length.
pub proof fn lemma_client_message_type_by_byte(data: Seq<u8>)
    ensures
        data.len() < 2 <==> spec_client_message_type(data) == Err::<MessageType, MessageError>(
            MessageError::InvalidMsgLength,
        ),
        data.len() >= 2 ==> {
            &&& data[1] == 1 ==> spec_client_message_type(data) == Ok::<MessageType, MessageError>(
                MessageType::Hello,
            )
            &&& data[1] == 3 ==> spec_client_message_type(data) == Ok::<MessageType, MessageError>(
                MessageType::Transport,
            )
            &&& data[1] == 4 ==> spec_client_message_type(data) == Ok::<MessageType, MessageError>(
                MessageType::Close,
            )
            &&& data[1] == 5 ==> spec_client_message_type(data) == Ok::<MessageType, MessageError>(
                MessageType::HealthCheck,
            )
            &&& data[1] == 6 ==> spec_client_message_type(data) == Ok::<MessageType, MessageError>(
                MessageType::Auth,
            )
            &&& !(data[1] == 1 || data[1] == 3 || data[1] == 4 || data[1] == 5 || data[1] == 6)
                ==> spec_client_message_type(data) == Err::<MessageType, MessageError>(
                MessageError::InvalidMsgType,
            )
        },
        forall|other: Seq<u8>|
            data.len() >= 2 && other.len() >= 2 && #[trigger] other[1] == data[1]
                ==> spec_client_message_type(other) == spec_client_message_type(data),
{
}

/// An auth message of at least `HEADER_TOTAL_SIZE_AUTH` bytes is accepted
/// exactly when bytes 2 to 5 are the cookie 21 12 A4 42, and then gives its
/// bytes 6 to 41 as the peer id and the rest as the payload; with another
/// cookie it is refused as an invalid type, and a shorter message for its
/// length.
pub proof fn lemma_auth_msg_cookie(msg: Seq<u8>)
    ensures
        msg.len() < 42 ==> spec_unmarshal_auth_msg(msg) == Err::<(Seq<u8>, Seq<u8>), MessageError>(
            MessageError::InvalidMsgLength,
        ),
        msg.len() >= 42 ==> {
            let cookie = msg[2] == 0x21 && msg[3] == 0x12 && msg[4] == 0xA4 && msg[5] == 0x42;
            &&& cookie ==> spec_unmarshal_auth_msg(msg) == Ok::<(Seq<u8>, Seq<u8>), MessageError>(
                (msg.subrange(6, 42), msg.subrange(42, msg.len() as int)),
            )
            &&& !cookie ==> spec_unmarshal_auth_msg(msg) == Err::<
                (Seq<u8>, Seq<u8>),
                MessageError,
            >(MessageError::InvalidMsgType)
        },
{
    if msg.len() >= 42 {
        let m = msg.subrange(2, 6);
        assert(m[0] == msg[2] && m[1] == msg[3] && m[2] == msg[4] && m[3] == msg[5]);
        if msg[2] == 0x21 && msg[3] == 0x12 && msg[4] == 0xA4 && msg[5] == 0x42 {
            assert(m =~= magic_header());
        }
    }
}

} // verus!
