use crypto::hmac::Hmac;
use crypto::mac::Mac;
use crypto::sha2::Sha256;
use nuckrelay::validator::{
    constant_time_eq, parse_i64, sha256_sum, AuthAlgo, Token, ValidationError, Validator,
};

fn hmac(key: &[u8], msg: &[u8]) -> Vec<u8> {
    let mut h = Hmac::new(Sha256::new(), key);
    h.input(msg);
    h.result().code().to_vec()
}

fn token(key: &[u8], payload: &[u8]) -> Vec<u8> {
    let mut t = vec![1u8];
    t.extend_from_slice(&hmac(key, payload));
    t.extend_from_slice(payload);
    t
}

fn hex(bytes: &[u8]) -> String {
    bytes.iter().map(|b| format!("{:02x}", b)).collect()
}

#[test]
fn sha256_known_digest() {
    assert_eq!(
        hex(&sha256_sum(b"abc")),
        "ba7816bf8f01cfea414140de5dae2223b00361a396177a9cb410ff61f20015ad"
    );
    assert_eq!(
        hex(&sha256_sum(b"")),
        "e3b0c44298fc1c149afbf4c8996fb92427ae41e4649b934ca495991b7852b855"
    );
}

#[test]
fn auth_algo_sizes() {
    assert_eq!(AuthAlgo::HmacSha256.size(), 32);
    assert_eq!(AuthAlgo::Unknown.size(), 0);
    assert_eq!(AuthAlgo::from_u8(1), AuthAlgo::HmacSha256);
    assert_eq!(AuthAlgo::from_u8(0), AuthAlgo::Unknown);
    assert_eq!(AuthAlgo::from_u8(2), AuthAlgo::Unknown);
}

#[test]
fn token_unmarshal_parts() {
    let mut data = vec![1u8];
    data.extend_from_slice(&[7u8; 32]);
    data.extend_from_slice(b"1700000000");
    let t = Token::unmarshal(&data).unwrap();
    assert_eq!(t.auth_algo, AuthAlgo::HmacSha256);
    assert_eq!(t.signature, vec![7u8; 32]);
    assert_eq!(t.payload, b"1700000000".to_vec());
}

#[test]
fn token_unmarshal_unknown_algo() {
    let t = Token::unmarshal(&[9u8, b'a', b'b']).unwrap();
    assert_eq!(t.auth_algo, AuthAlgo::Unknown);
    assert!(t.signature.is_empty());
    assert_eq!(t.payload, b"ab".to_vec());
}

#[test]
fn token_unmarshal_errors() {
    assert_eq!(Token::unmarshal(&[]).unwrap_err(), ValidationError::InvalidTokenData);
    assert_eq!(
        Token::unmarshal(&[1u8; 32]).unwrap_err(),
        ValidationError::InsufficientTokenLength
    );
    let t = Token::unmarshal(&[1u8; 33]).unwrap();
    assert!(t.payload.is_empty());
}

#[test]
fn constant_time_comparison() {
    assert!(constant_time_eq(b"abc", b"abc"));
    assert!(constant_time_eq(b"", b""));
    assert!(!constant_time_eq(b"abc", b"abd"));
    assert!(!constant_time_eq(b"abc", b"ab"));
    assert!(!constant_time_eq(&[0x80], &[0x00]));
}

#[test]
fn parse_i64_accepts() {
    assert_eq!(parse_i64(b"0"), Some(0));
    assert_eq!(parse_i64(b"1700000000"), Some(1_700_000_000));
    assert_eq!(parse_i64(b"+42"), Some(42));
    assert_eq!(parse_i64(b"-42"), Some(-42));
    assert_eq!(parse_i64(b"007"), Some(7));
    assert_eq!(parse_i64(b"9223372036854775807"), Some(i64::MAX));
    assert_eq!(parse_i64(b"-9223372036854775808"), Some(i64::MIN));
}

#[test]
fn parse_i64_refuses() {
    assert_eq!(parse_i64(b""), None);
    assert_eq!(parse_i64(b"+"), None);
    assert_eq!(parse_i64(b"-"), None);
    assert_eq!(parse_i64(b"12a"), None);
    assert_eq!(parse_i64(b" 12"), None);
    assert_eq!(parse_i64(b"1_000"), None);
    assert_eq!(parse_i64(b"--1"), None);
    assert_eq!(parse_i64(b"9223372036854775808"), None);
    assert_eq!(parse_i64(b"-9223372036854775809"), None);
    assert_eq!(parse_i64(b"99999999999999999999x"), None);
}

#[test]
fn parse_i64_agrees_with_std() {
    for text in ["1", "-0", "+0", "123456789012", "-99", "x", "", "+-3", "18446744073709551616"] {
        assert_eq!(parse_i64(text.as_bytes()), text.parse::<i64>().ok(), "{}", text);
    }
}

#[test]
fn signed_token_accepted_before_expiry() {
    let v = Validator::new(b"secret".to_vec());
    let t = token(b"secret", b"1700000100");
    assert_eq!(v.validate_at(&t, Some(1_700_000_000)), Ok(()));
    assert_eq!(v.validate_at(&t, Some(1_700_000_100)), Ok(()));
}

#[test]
fn signed_token_expires() {
    let v = Validator::new(b"secret".to_vec());
    let t = token(b"secret", b"1700000100");
    assert_eq!(v.validate_at(&t, Some(1_700_000_101)), Err(ValidationError::ExpiredToken));
}

#[test]
fn clock_before_epoch() {
    let v = Validator::new(b"secret".to_vec());
    let t = token(b"secret", b"1700000100");
    assert_eq!(v.validate_at(&t, None), Err(ValidationError::SystemTimeError));
}

#[test]
fn forged_token_refused() {
    let v = Validator::new(b"secret".to_vec());
    let t = token(b"other", b"1700000100");
    assert_eq!(v.validate_at(&t, Some(0)), Err(ValidationError::InvalidSignature));
}

#[test]
fn hmac_reference_vector_checked() {
    // RFC 4231, test case 2: the signature matches, so the check reaches the payload.
    let v = Validator::new(b"Jefe".to_vec());
    let mut t = vec![1u8];
    let tag = [
        0x5b, 0xdc, 0xc1, 0x46, 0xbf, 0x60, 0x75, 0x4e, 0x6a, 0x04, 0x24, 0x26, 0x08, 0x95, 0x75,
        0xc7, 0x5a, 0x00, 0x3f, 0x08, 0x9d, 0x27, 0x39, 0x83, 0x9d, 0xec, 0x58, 0xb9, 0x64, 0xec,
        0x38, 0x43,
    ];
    t.extend_from_slice(&tag);
    t.extend_from_slice(b"what do ya want for nothing?");
    assert_eq!(v.validate_at(&t, Some(0)), Err(ValidationError::InvalidTimestamp));
    t[1] ^= 1;
    assert_eq!(v.validate_at(&t, Some(0)), Err(ValidationError::InvalidSignature));
}

#[test]
fn payload_errors() {
    let v = Validator::new(b"k".to_vec());
    assert_eq!(v.validate_at(&token(b"k", b"123456789"), Some(0)), Err(ValidationError::InsufficientPayloadLength));
    assert_eq!(v.validate_at(&[0u8; 12], Some(0)), Err(ValidationError::UnsupportedAlgorithm));
    assert_eq!(v.validate_at(&[0u8; 5], Some(0)), Err(ValidationError::InsufficientPayloadLength));
    assert_eq!(v.validate_at(&token(b"k", &[0xffu8; 10]), Some(0)), Err(ValidationError::PayloadNotUtf8));
    assert_eq!(v.validate_at(&token(b"k", b"12345678 0"), Some(0)), Err(ValidationError::InvalidTimestamp));
    assert_eq!(v.validate_at(&[], Some(0)), Err(ValidationError::InvalidTokenData));
    assert_eq!(v.validate_at(&[1u8; 20], Some(0)), Err(ValidationError::InsufficientTokenLength));
}

#[test]
fn validate_against_clock() {
    let v = Validator::new(b"key".to_vec());
    assert_eq!(v.validate(&token(b"key", b"99999999999")), Ok(()));
    assert_eq!(v.validate(&token(b"key", b"1000000000")), Err(ValidationError::ExpiredToken));
    assert_eq!(v.validate(&token(b"bad", b"99999999999")), Err(ValidationError::InvalidSignature));
}

#[test]
fn validation_error_text() {
    assert_eq!(ValidationError::InvalidTokenData.to_string(), "invalid token data");
    assert_eq!(ValidationError::InsufficientTokenLength.to_string(), "invalid token data: insufficient length");
    assert_eq!(ValidationError::InsufficientPayloadLength.to_string(), "invalid payload: insufficient length");
    assert_eq!(ValidationError::UnsupportedAlgorithm.to_string(), "unsupported auth algorithm");
    assert_eq!(ValidationError::InvalidSignature.to_string(), "invalid signature");
    assert_eq!(ValidationError::PayloadNotUtf8.to_string(), "invalid payload: not valid UTF-8");
    assert_eq!(ValidationError::InvalidTimestamp.to_string(), "invalid payload: not a valid timestamp");
    assert_eq!(ValidationError::SystemTimeError.to_string(), "system time error");
    assert_eq!(ValidationError::ExpiredToken.to_string(), "expired token");
}
