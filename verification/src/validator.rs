//! Token authentication: the token format, HMAC-SHA256 signatures and the
//! expiry check of the signed timestamp.
use crypto::digest::Digest;
use crypto::mac::Mac;
use vstd::prelude::*;
use vstd::slice::*;
use vstd::utf8::*;

verus! {

/// Inputs of a SHA-256 computation that its bit counter can take: the digest
/// panics once the message length in bits no longer fits in a `u64`.
pub open spec fn sha256_input_fits(len: int) -> bool {
    len < 0x2000_0000_0000_0000
}

/// Inputs of an HMAC-SHA256 computation that the digest's bit counter can
/// take: the key is hashed alone when it is long, and the message follows a
/// 64-byte block.
pub open spec fn hmac_input_fits(key_len: int, msg_len: int) -> bool {
    key_len < 0x2000_0000_0000_0000 && msg_len + 64 < 0x2000_0000_0000_0000
}

/// The SHA-256 digest of `data`, as `crypto::sha2::Sha256` computes it.
pub uninterp spec fn sha256(data: Seq<u8>) -> Seq<u8>;

/// Calls `crypto::sha2::Sha256` (`new`, `input`, `result`). Its contract names
/// the 32 bytes written `sha256` of the input.
#[verifier::external_body]
fn sha256_digest(data: &[u8]) -> (r: [u8; 32])
    requires
        sha256_input_fits(data@.len() as int),
    ensures
        r@ == sha256(data@),
{
    let mut hasher = crypto::sha2::Sha256::new();
    hasher.input(data);
    let mut result = [0u8; 32];
    hasher.result(&mut result);
    result
}

/// Computes the SHA-256 hash of the input data.
pub fn sha256_sum(data: &[u8]) -> (r: [u8; 32])
    requires
        sha256_input_fits(data@.len() as int),
    ensures
        r@ == sha256(data@),
{
    sha256_digest(data)
}

/// The HMAC-SHA256 tag of `message` under `key`, as `crypto::hmac::Hmac` over
/// `crypto::sha2::Sha256` computes it.
pub uninterp spec fn hmac_sha256(key: Seq<u8>, message: Seq<u8>) -> Seq<u8>;

/// Calls `crypto::hmac::Hmac::new` with `crypto::sha2::Sha256`, then `Mac::input`
/// and `Mac::result`, and copies the code out. Its contract names the code
/// `hmac_sha256` of the key and the message, and claims its length: the
/// output size of SHA-256, 32 bytes.
#[verifier::external_body]
fn compute_hmac_sha256(key: &[u8], message: &[u8]) -> (r: Vec<u8>)
    requires
        hmac_input_fits(key@.len() as int, message@.len() as int),
    ensures
        r@ == hmac_sha256(key@, message@),
        r@.len() == 32,
{
    let mut hmac = crypto::hmac::Hmac::new(crypto::sha2::Sha256::new(), key);
    hmac.input(message);
    hmac.result().code().to_vec()
}

/// Calls `std::str::from_utf8` and tells whether it succeeded. Its contract
/// claims that it succeeds exactly on valid UTF-8.
#[verifier::external_body]
fn is_valid_utf8(bytes: &[u8]) -> (r: bool)
    ensures
        r == valid_utf8(bytes@),
{
    std::str::from_utf8(bytes).is_ok()
}

#[verifier::external_type_specification]
#[verifier::external_body]
pub struct ExSystemTime(std::time::SystemTime);

/// Calls `std::time::SystemTime::now`. Nothing is claimed of the reading.
#[verifier::external_body]
fn system_time_now() -> std::time::SystemTime {
    std::time::SystemTime::now()
}

/// Calls `std::time::SystemTime::duration_since` with the Unix epoch; `None`
/// when the time lies before the epoch. Nothing is claimed of the result.
#[verifier::external_body]
fn duration_since_unix_epoch(t: std::time::SystemTime) -> Option<std::time::Duration> {
    t.duration_since(std::time::UNIX_EPOCH).ok()
}

/// Calls `std::time::Duration::as_secs`. Nothing is claimed of the result.
#[verifier::external_body]
fn duration_as_secs(d: std::time::Duration) -> u64 {
    d.as_secs()
}

/// Reads the clock as whole seconds since the Unix epoch; `None` when the
/// clock lies before the epoch. The reading depends on the time, so nothing
/// more is stated of it.
fn unix_time_now() -> (r: Option<u64>) {
    match duration_since_unix_epoch(system_time_now()) {
        Some(d) => Some(duration_as_secs(d)),
        None => None,
    }
}

/// The shortest payload that can hold a Unix timestamp.
pub const MIN_LENGTH_UNIX_TIMESTAMP: usize = 10;

/// Token authentication algorithm.
#[derive(Debug, Clone, Copy, PartialEq, Eq, Structural)]
pub enum AuthAlgo {
    Unknown,
    HmacSha256,
}

impl AuthAlgo {
    pub open spec fn spec_size(&self) -> usize {
        match self {
            AuthAlgo::HmacSha256 => 32,
            _ => 0,
        }
    }

    /// Returns the size of the algorithm's output in bytes.
    #[verifier::when_used_as_spec(spec_size)]
    pub fn size(&self) -> (r: usize)
        ensures
            r == self.spec_size(),
    {
        match self {
            AuthAlgo::HmacSha256 => 32,
            _ => 0,
        }
    }

    pub open spec fn spec_from_u8(val: u8) -> AuthAlgo {
        if val == 1 {
            AuthAlgo::HmacSha256
        } else {
            AuthAlgo::Unknown
        }
    }

    /// Parses an algorithm from a byte.
    #[verifier::when_used_as_spec(spec_from_u8)]
    pub fn from_u8(val: u8) -> (r: Self)
        ensures
            r == Self::spec_from_u8(val),
    {
        match val {
            1 => AuthAlgo::HmacSha256,
            _ => AuthAlgo::Unknown,
        }
    }
}

/// Why a token was refused.
#[derive(Debug, Clone, Copy, PartialEq, Eq, Structural)]
pub enum ValidationError {
    InvalidTokenData,
    InsufficientTokenLength,
    InsufficientPayloadLength,
    UnsupportedAlgorithm,
    InvalidSignature,
    PayloadNotUtf8,
    InvalidTimestamp,
    SystemTimeError,
    ExpiredToken,
}

impl ValidationError {
    pub open spec fn spec_text(self) -> Seq<char> {
        match self {
            ValidationError::InvalidTokenData => "invalid token data"@,
            ValidationError::InsufficientTokenLength => "invalid token data: insufficient length"@,
            ValidationError::InsufficientPayloadLength => "invalid payload: insufficient length"@,
            ValidationError::UnsupportedAlgorithm => "unsupported auth algorithm"@,
            ValidationError::InvalidSignature => "invalid signature"@,
            ValidationError::PayloadNotUtf8 => "invalid payload: not valid UTF-8"@,
            ValidationError::InvalidTimestamp => "invalid payload: not a valid timestamp"@,
            ValidationError::SystemTimeError => "system time error"@,
            ValidationError::ExpiredToken => "expired token"@,
        }
    }

    /// The human-readable description of the error.
    pub fn to_string(&self) -> (r: String)
        ensures
            r@ == self.spec_text(),
    {
        match self {
            ValidationError::InvalidTokenData => String::from_str("invalid token data"),
            ValidationError::InsufficientTokenLength => String::from_str(
                "invalid token data: insufficient length",
            ),
            ValidationError::InsufficientPayloadLength => String::from_str(
                "invalid payload: insufficient length",
            ),
            ValidationError::UnsupportedAlgorithm => String::from_str("unsupported auth algorithm"),
            ValidationError::InvalidSignature => String::from_str("invalid signature"),
            ValidationError::PayloadNotUtf8 => String::from_str("invalid payload: not valid UTF-8"),
            ValidationError::InvalidTimestamp => String::from_str(
                "invalid payload: not a valid timestamp",
            ),
            ValidationError::SystemTimeError => String::from_str("system time error"),
            ValidationError::ExpiredToken => String::from_str("expired token"),
        }
    }
}

/// Token structure for authentication.
#[derive(Debug)]
pub struct Token {
    pub auth_algo: AuthAlgo,
    pub signature: Vec<u8>,
    pub payload: Vec<u8>,
}

impl View for Token {
    type V = (AuthAlgo, Seq<u8>, Seq<u8>);

    open spec fn view(&self) -> Self::V {
        (self.auth_algo, self.signature@, self.payload@)
    }
}

/// The algorithm, signature and payload encoded in token bytes: an algorithm
/// byte, a signature of the algorithm's size, then the payload.
pub open spec fn spec_unmarshal_token(data: Seq<u8>) -> Result<
    (AuthAlgo, Seq<u8>, Seq<u8>),
    ValidationError,
> {
    if data.len() == 0 {
        Err(ValidationError::InvalidTokenData)
    } else {
        let algo = AuthAlgo::spec_from_u8(data[0]);
        let sig_size = algo.spec_size();
        if data.len() < 1 + sig_size {
            Err(ValidationError::InsufficientTokenLength)
        } else {
            Ok(
                (
                    algo,
                    data.subrange(1, 1 + sig_size),
                    data.subrange(1 + sig_size, data.len() as int),
                ),
            )
        }
    }
}

/// A token result viewed as the result of its parts.
pub open spec fn token_result(r: Result<Token, ValidationError>) -> Result<
    (AuthAlgo, Seq<u8>, Seq<u8>),
    ValidationError,
> {
    match r {
        Ok(t) => Ok(t@),
        Err(e) => Err(e),
    }
}

impl Token {
    /// Unmarshals a token from binary data.
    pub fn unmarshal(data: &[u8]) -> (r: Result<Token, ValidationError>)
        ensures
            token_result(r) == spec_unmarshal_token(data@),
    {
        if data.len() == 0 {
            return Err(ValidationError::InvalidTokenData);
        }
        let algo = AuthAlgo::from_u8(data[0]);
        let sig_size = algo.size();
        if data.len() < 1 + sig_size {
            return Err(ValidationError::InsufficientTokenLength);
        }
        Ok(
            Token {
                auth_algo: algo,
                signature: slice_to_vec(slice_subrange(data, 1, 1 + sig_size)),
                payload: slice_to_vec(slice_subrange(data, 1 + sig_size, data.len())),
            },
        )
    }
}


/// Constant-time comparison of two byte slices: every byte pair is looked at,
/// whatever the first difference.
pub fn constant_time_eq(a: &[u8], b: &[u8]) -> (r: bool)
    ensures
        r == (a@ == b@),
{
    if a.len() != b.len() {
        return false;
    }
    let mut result: u8 = 0;
    let n = a.len();
    for i in 0..n
        invariant
            n == a@.len(),
            n == b@.len(),
            (result == 0) <==> (forall|j: int| 0 <= j < i ==> a@[j] == b@[j]),
    {
        let x = a[i];
        let y = b[i];
        let old_result = result;
        result = result | (x ^ y);
        assert((old_result | (x ^ y)) == 0 <==> (old_result == 0 && x == y)) by (bit_vector);
    }
    proof {
        if result == 0 {
            assert(a@ =~= b@);
        }
    }
    result == 0
}

/// Whether a byte is an ASCII decimal digit.
pub open spec fn is_ascii_digit(b: u8) -> bool {
    48 <= b <= 57
}

/// Whether every byte of `s` is an ASCII decimal digit.
pub open spec fn all_ascii_digits(s: Seq<u8>) -> bool {
    forall|i: int| 0 <= i < s.len() ==> #[trigger] is_ascii_digit(s[i])
}

/// The number that the decimal digits `s` spell.
pub open spec fn decimal_value(s: Seq<u8>) -> int
    decreases s.len(),
{
    if s.len() == 0 {
        0
    } else {
        decimal_value(s.drop_last()) * 10 + (s.last() - 48)
    }
}

/// What parsing the text `s` as an `i64` gives, as `str::parse::<i64>`
/// documents it: an optional `+` or `-` sign, then one or more decimal
/// digits, whose value must lie in the range of `i64`.
pub open spec fn spec_parse_i64(s: Seq<u8>) -> Option<i64> {
    if s.len() == 0 {
        None
    } else {
        let negative = s[0] == 45;
        let digits = if s[0] == 43 || s[0] == 45 {
            s.drop_first()
        } else {
            s
        };
        let value = if negative {
            -decimal_value(digits)
        } else {
            decimal_value(digits)
        };
        if digits.len() == 0 || !all_ascii_digits(digits) {
            None
        } else if value < i64::MIN || value > i64::MAX {
            None
        } else {
            Some(value as i64)
        }
    }
}

/// Extending a run of digits never lowers its value.
proof fn lemma_decimal_value_prefix(s: Seq<u8>, k: int)
    requires
        all_ascii_digits(s),
        0 <= k <= s.len(),
    ensures
        0 <= decimal_value(s.subrange(0, k)) <= decimal_value(s),
    decreases s.len() - k,
{
    if k == s.len() {
        assert(s.subrange(0, k) =~= s);
        lemma_decimal_value_nonneg(s);
    } else {
        let t = s.subrange(0, k + 1);
        lemma_decimal_value_prefix(s, k + 1);
        assert(t.drop_last() =~= s.subrange(0, k));
        assert(is_ascii_digit(s[k]));
        assert(all_ascii_digits(t.drop_last()));
        lemma_decimal_value_nonneg(t.drop_last());
    }
}

proof fn lemma_decimal_value_nonneg(s: Seq<u8>)
    requires
        all_ascii_digits(s),
    ensures
        decimal_value(s) >= 0,
    decreases s.len(),
{
    if s.len() > 0 {
        assert(is_ascii_digit(s[s.len() - 1]));
        assert(all_ascii_digits(s.drop_last()));
        lemma_decimal_value_nonneg(s.drop_last());
    }
}

/// Parses a byte string as a decimal `i64` the way `str::parse::<i64>` does.
pub fn parse_i64(s: &[u8]) -> (r: Option<i64>)
    ensures
        r == spec_parse_i64(s@),
{
    let n = s.len();
    if n == 0 {
        return None;
    }
    let negative = s[0] == 45u8;
    let start: usize = if s[0] == 43u8 || s[0] == 45u8 {
        1
    } else {
        0
    };
    let ghost digits = if s@[0] == 43 || s@[0] == 45 {
        s@.drop_first()
    } else {
        s@
    };
    assert(digits =~= s@.subrange(start as int, n as int));
    if start == n {
        return None;
    }
    for i in start..n
        invariant
            start <= n,
            n == s@.len(),
            digits == s@.subrange(start as int, n as int),
            digits == (if s@[0] == 43 || s@[0] == 45 {
                s@.drop_first()
            } else {
                s@
            }),
            n > 0,
            forall|j: int| 0 <= j < i - start ==> #[trigger] is_ascii_digit(digits[j]),
    {
        assert(digits[i - start] == s@[i as int]);
        if s[i] < 48u8 || s[i] > 57u8 {
            assert(!is_ascii_digit(digits[i - start]));
            return None;
        }
    }
    assert(all_ascii_digits(digits));
    let mut acc: i64 = 0;
    for i in start..n
        invariant
            start <= n,
            n == s@.len(),
            digits == s@.subrange(start as int, n as int),
            digits == (if s@[0] == 43 || s@[0] == 45 {
                s@.drop_first()
            } else {
                s@
            }),
            all_ascii_digits(digits),
            n > 0,
            negative == (s@[0] == 45),
            acc == if negative {
                -decimal_value(digits.subrange(0, i - start))
            } else {
                decimal_value(digits.subrange(0, i - start))
            },
    {
        let ghost prefix = digits.subrange(0, i - start + 1);
        assert(prefix.drop_last() =~= digits.subrange(0, i - start));
        assert(prefix.last() == s@[i as int]);
        assert(digits[i - start] == s@[i as int]);
        assert(is_ascii_digit(digits[i - start]));
        let d = (s[i] - 48u8) as i64;
        assert(decimal_value(prefix) == decimal_value(digits.subrange(0, i - start)) * 10 + d);
        let scaled = acc.checked_mul(10);
        let next = match scaled {
            Some(m) => if negative {
                m.checked_sub(d)
            } else {
                m.checked_add(d)
            },
            None => None,
        };
        match next {
            Some(v) => {
                acc = v;
            },
            None => {
                proof {
                    lemma_decimal_value_prefix(digits, i - start + 1);
                    lemma_decimal_value_prefix(digits, i - start);
                    let full = decimal_value(digits);
                    let vn = decimal_value(prefix);
                    if negative {
                        assert(-vn < i64::MIN);
                        assert(-full < i64::MIN);
                    } else {
                        assert(vn > i64::MAX);
                        assert(full > i64::MAX);
                    }
                }
                return None;
            },
        }
    }
    assert(digits.subrange(0, n - start) =~= digits);
    Some(acc)
}


/// The signed timestamp of a token, once every check that does not depend on
/// the clock has passed.
pub open spec fn spec_token_timestamp(secret: Seq<u8>, data: Seq<u8>) -> Result<i64, ValidationError> {
    match spec_unmarshal_token(data) {
        Err(e) => Err(e),
        Ok((algo, signature, payload)) => {
            if payload.len() < MIN_LENGTH_UNIX_TIMESTAMP {
                Err(ValidationError::InsufficientPayloadLength)
            } else if algo != AuthAlgo::HmacSha256 {
                Err(ValidationError::UnsupportedAlgorithm)
            } else if signature != hmac_sha256(secret, payload) {
                Err(ValidationError::InvalidSignature)
            } else if !valid_utf8(payload) {
                Err(ValidationError::PayloadNotUtf8)
            } else {
                match spec_parse_i64(payload) {
                    None => Err(ValidationError::InvalidTimestamp),
                    Some(timestamp) => Ok(timestamp),
                }
            }
        },
    }
}

/// The verdict on token bytes when the clock reads `now` seconds since the
/// Unix epoch (`None`: the clock lies before the epoch). A token expires once
/// the clock has passed its timestamp.
pub open spec fn spec_validate(secret: Seq<u8>, data: Seq<u8>, now: Option<u64>) -> Result<
    (),
    ValidationError,
> {
    match spec_token_timestamp(secret, data) {
        Err(e) => Err(e),
        Ok(timestamp) => match now {
            None => Err(ValidationError::SystemTimeError),
            Some(secs) => if (secs as i64) > timestamp {
                Err(ValidationError::ExpiredToken)
            } else {
                Ok(())
            },
        },
    }
}

/// Validator for HMAC tokens.
#[derive(Debug, Clone)]
pub struct Validator {
    secret: Vec<u8>,
}

impl View for Validator {
    type V = Seq<u8>;

    /// The shared secret.
    closed spec fn view(&self) -> Seq<u8> {
        self.secret@
    }
}

impl Validator {
    /// Creates a new validator with the given secret.
    pub fn new(secret: Vec<u8>) -> (r: Self)
        ensures
            r@ == secret@,
    {
        Validator { secret }
    }

    /// Validates token bytes against the clock reading `now` (seconds since
    /// the Unix epoch; `None` when the clock lies before the epoch).
    pub fn validate_at(&self, data: &[u8], now: Option<u64>) -> (r: Result<(), ValidationError>)
        requires
            hmac_input_fits(self@.len() as int, data@.len() as int),
        ensures
            r == spec_validate(self@, data@, now),
    {
        let token = match Token::unmarshal(data) {
            Ok(t) => t,
            Err(e) => return Err(e),
        };
        if token.payload.len() < MIN_LENGTH_UNIX_TIMESTAMP {
            return Err(ValidationError::InsufficientPayloadLength);
        }
        match token.auth_algo {
            AuthAlgo::HmacSha256 => {},
            _ => return Err(ValidationError::UnsupportedAlgorithm),
        }
        let expected_mac = compute_hmac_sha256(self.secret.as_slice(), token.payload.as_slice());
        if !constant_time_eq(token.signature.as_slice(), expected_mac.as_slice()) {
            return Err(ValidationError::InvalidSignature);
        }
        if !is_valid_utf8(token.payload.as_slice()) {
            return Err(ValidationError::PayloadNotUtf8);
        }
        let timestamp = match parse_i64(token.payload.as_slice()) {
            Some(t) => t,
            None => return Err(ValidationError::InvalidTimestamp),
        };
        let current_time = match now {
            Some(secs) => #[verifier::truncate] (secs as i64),
            None => return Err(ValidationError::SystemTimeError),
        };
        if current_time > timestamp {
            return Err(ValidationError::ExpiredToken);
        }
        Ok(())
    }

    /// Validates token bytes against the current time: the token must be
    /// well formed, signed with the shared secret over its payload, and its
    /// payload must be a Unix timestamp that the clock has not passed. The
    /// verdict is the one for some reading of the clock.
    pub fn validate(&self, data: &[u8]) -> (r: Result<(), ValidationError>)
        requires
            hmac_input_fits(self@.len() as int, data@.len() as int),
        ensures
            exists|now: Option<u64>| r == #[trigger] spec_validate(self@, data@, now),
    {
        let now = unix_time_now();
        let r = self.validate_at(data, now);
        assert(r == spec_validate(self@, data@, now));
        r
    }
}


/// Text that parses as an `i64` is ASCII, hence valid UTF-8.
proof fn lemma_parsed_is_utf8(s: Seq<u8>)
    requires
        spec_parse_i64(s) is Some,
    ensures
        valid_utf8(s),
{
    let digits = if s[0] == 43 || s[0] == 45 {
        s.drop_first()
    } else {
        s
    };
    assert forall|i: int| 0 <= i < s.len() implies #[trigger] is_leading_byte_width_1(s[i]) by {
        if s[0] == 43 || s[0] == 45 {
            if i > 0 {
                assert(is_ascii_digit(digits[i - 1]));
            }
        } else {
            assert(is_ascii_digit(digits[i]));
        }
    }
    assert(s.subrange(0, 0) =~= Seq::<u8>::empty());
    partial_valid_utf8_extend_ascii_block(s, 0, s.len() as int);
    assert(s.subrange(0, s.len() as int) =~= s);
}

/// A token is the algorithm byte, a signature of the algorithm's size and
/// the payload: unmarshalling such bytes gives these parts back.
pub proof fn lemma_token_layout(signature: Seq<u8>, payload: Seq<u8>)
    requires
        signature.len() == AuthAlgo::HmacSha256.spec_size(),
    ensures
        spec_unmarshal_token(seq![1u8] + signature + payload) == Ok::<
            (AuthAlgo, Seq<u8>, Seq<u8>),
            ValidationError,
        >((AuthAlgo::HmacSha256, signature, payload)),
{
    let data = seq![1u8] + signature + payload;
    assert(data.subrange(1, 33) =~= signature);
    assert(data.subrange(33, data.len() as int) =~= payload);
}

/// A token signed with the shared secret over a timestamp payload is
/// accepted as long as the clock has not passed the timestamp.
pub proof fn lemma_signed_token_accepted(
    secret: Seq<u8>,
    signature: Seq<u8>,
    payload: Seq<u8>,
    timestamp: i64,
    now: u64,
)
    requires
        signature == hmac_sha256(secret, payload),
        signature.len() == AuthAlgo::HmacSha256.spec_size(),
        payload.len() >= MIN_LENGTH_UNIX_TIMESTAMP,
        spec_parse_i64(payload) == Some(timestamp),
        now as i64 <= timestamp,
    ensures
        spec_validate(secret, seq![1u8] + signature + payload, Some(now)) == Ok::<(), ValidationError>(()),
{
    lemma_token_layout(signature, payload);
    lemma_parsed_is_utf8(payload);
}

/// A token whose signature is not the HMAC of its payload under the shared
/// secret is refused as forged, whatever the clock reads.
pub proof fn lemma_forged_token_refused(
    secret: Seq<u8>,
    signature: Seq<u8>,
    payload: Seq<u8>,
    now: Option<u64>,
)
    requires
        signature != hmac_sha256(secret, payload),
        signature.len() == AuthAlgo::HmacSha256.spec_size(),
        payload.len() >= MIN_LENGTH_UNIX_TIMESTAMP,
    ensures
        spec_validate(secret, seq![1u8] + signature + payload, now) == Err::<(), ValidationError>(
            ValidationError::InvalidSignature,
        ),
{
    lemma_token_layout(signature, payload);
}

/// The clock matters only for a token that passes every other check: any
/// other token gets the same refusal whatever the clock reads.
pub proof fn lemma_refusal_ignores_clock(secret: Seq<u8>, data: Seq<u8>, now1: Option<u64>, now2: Option<u64>)
    requires
        spec_token_timestamp(secret, data) is Err,
    ensures
        spec_validate(secret, data, now1) == spec_validate(secret, data, now2),
{
}

/// An expired token stays expired as the clock moves on.
pub proof fn lemma_expiry_is_final(secret: Seq<u8>, data: Seq<u8>, now1: u64, now2: u64)
    requires
        spec_validate(secret, data, Some(now1)) == Err::<(), ValidationError>(
            ValidationError::ExpiredToken,
        ),
        now1 as i64 <= now2 as i64,
    ensures
        spec_validate(secret, data, Some(now2)) == Err::<(), ValidationError>(
            ValidationError::ExpiredToken,
        ),
{
}


/// The verdict on a token signed with the shared secret over a timestamp
/// payload depends on the clock alone: it is refused as expired exactly when
/// the reading is past the timestamp, accepted otherwise, and a clock before
/// the epoch is reported as such.
pub proof fn lemma_signed_token_verdict(
    secret: Seq<u8>,
    signature: Seq<u8>,
    payload: Seq<u8>,
    timestamp: i64,
    now: Option<u64>,
)
    requires
        signature == hmac_sha256(secret, payload),
        signature.len() == AuthAlgo::HmacSha256.spec_size(),
        payload.len() >= MIN_LENGTH_UNIX_TIMESTAMP,
        spec_parse_i64(payload) == Some(timestamp),
    ensures
        now is None ==> spec_validate(secret, seq![1u8] + signature + payload, now) == Err::<
            (),
            ValidationError,
        >(ValidationError::SystemTimeError),
        now matches Some(secs) && secs as i64 > timestamp ==> spec_validate(
            secret,
            seq![1u8] + signature + payload,
            now,
        ) == Err::<(), ValidationError>(ValidationError::ExpiredToken),
        now matches Some(secs) && secs as i64 <= timestamp ==> spec_validate(
            secret,
            seq![1u8] + signature + payload,
            now,
        ) == Ok::<(), ValidationError>(()),
{
    lemma_token_layout(signature, payload);
    lemma_parsed_is_utf8(payload);
}

} // verus!

