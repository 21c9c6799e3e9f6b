//! The relay server's setup: the instance URL that it announces and the
//! auth response that carries it.
use vstd::prelude::*;
use vstd::string::*;
use vstd::utf8::*;

use crate::message::{marshal_auth_response, spec_auth_response, MessageError};
use crate::store::Store;

verus! {

#[verifier::external_type_specification]
#[verifier::external_body]
pub struct ExUrlParseError(url::ParseError);

/// The parts of a parsed URL that the server reads.
pub struct ParsedUrl {
    pub scheme: String,
    pub serialization: String,
}

/// What `url::Url::parse` makes of a text: `None` when it refuses it, else
/// the scheme and the serialization of the parsed URL.
pub uninterp spec fn url_parse(input: Seq<char>) -> Option<(Seq<char>, Seq<char>)>;

/// Calls `url::Url::parse`, and on success reads the scheme with
/// `Url::scheme` and the serialization with `to_string`. Its contract names
/// the outcome `url_parse` of the input. Which parse error comes out is left
/// unsaid.
#[verifier::external_body]
fn parse_url(input: &str) -> (r: Result<ParsedUrl, url::ParseError>)
    ensures
        match r {
            Ok(p) => url_parse(input@) == Some((p.scheme@, p.serialization@)),
            Err(_) => url_parse(input@) is None,
        },
{
    match url::Url::parse(input) {
        Ok(u) => Ok(ParsedUrl { scheme: u.scheme().to_string(), serialization: u.to_string() }),
        Err(e) => Err(e),
    }
}

/// Calls the `Display` of `url::ParseError` through `to_string`. Nothing is
/// claimed of the text.
#[verifier::external_body]
fn url_parse_error_text(e: &url::ParseError) -> String {
    e.to_string()
}

/// Why the server could not be set up.
#[derive(Debug)]
pub enum ServerError {
    /// The exposed address holds `://` more than once.
    InvalidExposedAddress(String),
    /// The URL parser refused the address.
    InvalidUrl(url::ParseError),
    /// The URL has a scheme other than `rel` or `rels`.
    InvalidScheme(String),
    /// The auth response could not be built.
    Message(MessageError),
}

impl ServerError {
    /// The human-readable description of the error.
    pub fn to_string(&self) -> (r: String)
        ensures
            self matches ServerError::InvalidExposedAddress(a) ==> r@ == "invalid exposed address: "@ + a@,
            self matches ServerError::InvalidUrl(_) ==> "invalid exposed address: "@.is_prefix_of(r@),
            self matches ServerError::InvalidScheme(s) ==> r@ == "invalid scheme: "@ + s@,
            self matches ServerError::Message(e) ==> r@ == e.spec_text(),
    {
        match self {
            ServerError::InvalidExposedAddress(a) => {
                let mut text = String::from_str("invalid exposed address: ");
                text.append(a.as_str());
                text
            },
            ServerError::InvalidUrl(e) => {
                let mut text = String::from_str("invalid exposed address: ");
                let ghost prefix = text@;
                let detail = url_parse_error_text(e);
                text.append(detail.as_str());
                assert(text@.subrange(0, prefix.len() as int) =~= prefix);
                text
            },
            ServerError::InvalidScheme(s) => {
                let mut text = String::from_str("invalid scheme: ");
                text.append(s.as_str());
                text
            },
            ServerError::Message(e) => e.to_string(),
        }
    }
}

/// Whether `://` starts at byte `i`.
pub open spec fn scheme_sep_at(b: Seq<u8>, i: int) -> bool {
    0 <= i && i + 3 <= b.len() && b[i] == 58 && b[i + 1] == 47 && b[i + 2] == 47
}

/// Whether the text holds `://`.
pub open spec fn has_scheme_sep(b: Seq<u8>) -> bool {
    exists|i: int| #[trigger] scheme_sep_at(b, i)
}

/// Whether the text holds `://` twice, so that splitting it at `://` gives
/// more than two parts.
pub open spec fn has_two_scheme_seps(b: Seq<u8>) -> bool {
    exists|i: int, j: int| #[trigger] scheme_sep_at(b, i) && #[trigger] scheme_sep_at(b, j) && i + 3 <= j
}

/// How the exposed address becomes the instance URL.
pub enum InstanceUrl {
    TooManySchemes,
    Unparsable,
    BadScheme(Seq<char>),
    Url(Seq<char>),
}

/// The address to parse: the exposed address itself when it has a scheme,
/// else the address behind `rels://` (with TLS) or `rel://`.
pub open spec fn spec_instance_address(address: Seq<char>, tls_supported: bool) -> Seq<char> {
    if has_scheme_sep(encode_utf8(address)) {
        address
    } else if tls_supported {
        "rels://"@ + address
    } else {
        "rel://"@ + address
    }
}

/// The instance URL of an exposed address.
pub open spec fn spec_instance_url(address: Seq<char>, tls_supported: bool) -> InstanceUrl {
    if has_two_scheme_seps(encode_utf8(address)) {
        InstanceUrl::TooManySchemes
    } else {
        match url_parse(spec_instance_address(address, tls_supported)) {
            None => InstanceUrl::Unparsable,
            Some((scheme, serialization)) => if scheme == "rel"@ || scheme == "rels"@ {
                InstanceUrl::Url(serialization)
            } else {
                InstanceUrl::BadScheme(scheme)
            },
        }
    }
}

/// Whether a result stands for the given instance URL outcome.
pub open spec fn instance_url_result(r: Result<String, ServerError>, address: Seq<char>, outcome: InstanceUrl) -> bool {
    match outcome {
        InstanceUrl::TooManySchemes => r matches Err(ServerError::InvalidExposedAddress(a)) && a@ == address,
        InstanceUrl::Unparsable => r matches Err(ServerError::InvalidUrl(_)),
        InstanceUrl::BadScheme(scheme) => r matches Err(ServerError::InvalidScheme(s)) && s@ == scheme,
        InstanceUrl::Url(url) => r matches Ok(u) && u@ == url,
    }
}

/// The position of the first `://` at or after byte `from`.
fn find_scheme_sep(b: &[u8], from: usize) -> (r: Option<usize>)
    ensures
        match r {
            Some(i) => from <= i && scheme_sep_at(b@, i as int) && forall|j: int|
                from <= j < i ==> !scheme_sep_at(b@, j),
            None => forall|j: int| from <= j ==> !scheme_sep_at(b@, j),
        },
{
    let n = b.len();
    if n < 3 {
        return None;
    }
    let mut i = from;
    while i < n - 2
        invariant
            n == b@.len(),
            n >= 3,
            from <= i || i == from,
            forall|j: int| from <= j < i ==> !scheme_sep_at(b@, j),
        decreases n - i,
    {
        if b[i] == 58u8 && b[i + 1] == 47u8 && b[i + 2] == 47u8 {
            return Some(i);
        }
        i = i + 1;
    }
    None
}

/// Builds the instance URL from the exposed address: the address gets the
/// scheme `rels://` (with TLS) or `rel://` unless it has one, is parsed as a
/// URL, and must have the scheme `rel` or `rels`. An address that holds
/// `://` more than once is refused.
pub fn get_instance_url(exposed_address: &str, tls_supported: bool) -> (r: Result<String, ServerError>)
    ensures
        instance_url_result(r, exposed_address@, spec_instance_url(exposed_address@, tls_supported)),
{
    let bytes = exposed_address.as_bytes();
    let n = bytes.len();
    assert(bytes@.len() == n);
    let addr = match find_scheme_sep(bytes, 0) {
        Some(first) => {
            if let Some(_second) = find_scheme_sep(bytes, first + 3) {
                return Err(ServerError::InvalidExposedAddress(String::from_str(exposed_address)));
            }
            proof {
                assert forall|i: int, j: int| #[trigger] scheme_sep_at(bytes@, i) && #[trigger] scheme_sep_at(bytes@, j) implies !(i + 3 <= j) by {
                    if i + 3 <= j {
                        if i < first {
                        } else {
                            assert(first + 3 <= j);
                        }
                    }
                }
            }
            String::from_str(exposed_address)
        },
        None => {
            let mut text = if tls_supported {
                String::from_str("rels://")
            } else {
                String::from_str("rel://")
            };
            text.append(exposed_address);
            text
        },
    };
    assert(addr@ == spec_instance_address(exposed_address@, tls_supported));
    let parsed = match parse_url(addr.as_str()) {
        Ok(p) => p,
        Err(e) => return Err(ServerError::InvalidUrl(e)),
    };
    let rel = String::from_str("rel");
    let rels = String::from_str("rels");
    if parsed.scheme != rel && parsed.scheme != rels {
        return Err(ServerError::InvalidScheme(parsed.scheme));
    }
    Ok(parsed.serialization)
}


/// The relay server's state: the peer table and the auth response that it
/// sends after each successful handshake.
pub struct Server<T> {
    pub store: Store<T>,
    pub prepared_auth_response: Vec<u8>,
}

/// What setting up a server from an exposed address gives: its auth
/// response, or how it failed.
pub open spec fn server_result<T>(r: Result<Server<T>, ServerError>, address: Seq<char>, tls_supported: bool) -> bool {
    match spec_instance_url(address, tls_supported) {
        InstanceUrl::TooManySchemes => r matches Err(ServerError::InvalidExposedAddress(a)) && a@ == address,
        InstanceUrl::Unparsable => r matches Err(ServerError::InvalidUrl(_)),
        InstanceUrl::BadScheme(scheme) => r matches Err(ServerError::InvalidScheme(s)) && s@ == scheme,
        InstanceUrl::Url(url) => match spec_auth_response(encode_utf8(url)) {
            Err(e) => r matches Err(ServerError::Message(m)) && m == e,
            Ok(response) => r matches Ok(server) && server.wf() && server.store@ == Map::<
                Seq<char>,
                (u64, T),
            >::empty() && server.prepared_auth_response@ == response,
        },
    }
}

impl<T> Server<T> {
    /// The server's peer table is well formed.
    pub open spec fn wf(&self) -> bool {
        self.store.wf()
    }

    /// Creates a server that announces the instance URL built from
    /// `exposed_address`, with an empty peer table.
    pub fn new(exposed_address: String, tls_supported: bool) -> (r: Result<Self, ServerError>)
        ensures
            server_result(r, exposed_address@, tls_supported),
    {
        let store = Store::new();
        let instance_url = match get_instance_url(exposed_address.as_str(), tls_supported) {
            Ok(u) => u,
            Err(e) => return Err(e),
        };
        let prepared_auth_response = match marshal_auth_response(instance_url.as_str()) {
            Ok(m) => m,
            Err(e) => return Err(ServerError::Message(e)),
        };
        Ok(Server { store, prepared_auth_response })
    }
}

} // verus!
