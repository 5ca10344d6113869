use vstd::prelude::*;
use vstd::string::StringSliceAdditionalSpecFns;
use base64::Engine;
use sha1::Digest;

use crate::text::{append_bytes, bytes_eq, contains_bytes, starts_with_bytes, to_lower, trim_range};

verus! {

/// Appended to the client's key before hashing, as the protocol fixes it.
pub const WS_GUID: &'static str = "258EAFA5-E914-47DA-95CA-C5AB0DC85B11";

pub const METHOD_GET: &'static str = "GET";

pub const KEY_HEADER: &'static str = "sec-websocket-key";

pub const UPGRADE_HEADER: &'static str = "upgrade";

pub const CONNECTION_HEADER: &'static str = "connection";

pub const VERSION_HEADER: &'static str = "sec-websocket-version";

pub const WEBSOCKET_TOKEN: &'static str = "websocket";

pub const SUPPORTED_VERSION: &'static str = "13";

pub const RESPONSE_HEAD: &'static str = "HTTP/1.1 101 Switching Protocols\r\nUpgrade: websocket\r\nConnection: Upgrade\r\nSec-WebSocket-Accept: ";

pub const RESPONSE_TAIL: &'static str = "\r\n\r\n";

/// Why an upgrade request is refused.
#[derive(Clone, Copy, Debug, PartialEq, Eq, Structural)]
pub enum HandshakeError {
    /// The request line does not start with `GET`.
    InvalidMethod,
    /// No `Sec-WebSocket-Key` header.
    MissingKey,
    /// The `Upgrade` header is missing or is not `websocket`.
    InvalidUpgrade,
    /// The `Connection` header is missing or does not mention `upgrade`.
    InvalidConnection,
    /// A `Sec-WebSocket-Version` other than 13.
    UnsupportedVersion,
}

/// `i` is the position of the first colon of `s`.
pub open spec fn first_colon(s: Seq<u8>, i: int) -> bool {
    0 <= i < s.len() && s[i] == 58 && forall|j: int| 0 <= j < i ==> s[j] != 58
}

/// The name (trimmed, in small letters) and the value (trimmed) of a header
/// line, split at its first colon; `None` for a line without a colon. White
/// space and letter case are those of ASCII.
pub open spec fn header_entry(line: Seq<u8>) -> Option<(Seq<u8>, Seq<u8>)> {
    if exists|i: int| first_colon(line, i) {
        let i = choose|i: int| first_colon(line, i);
        Some(
            (
                crate::text::lower(crate::text::trim(line.subrange(0, i))),
                crate::text::trim(line.subrange(i + 1, line.len() as int)),
            ),
        )
    } else {
        None
    }
}

/// The value of the last header line named `name`.
pub open spec fn header_value(lines: Seq<Seq<u8>>, name: Seq<u8>) -> Option<Seq<u8>>
    decreases lines.len(),
{
    if lines.len() == 0 {
        None
    } else {
        match header_entry(lines.last()) {
            Some(e) => if e.0 == name {
                Some(e.1)
            } else {
                header_value(lines.drop_last(), name)
            },
            None => header_value(lines.drop_last(), name),
        }
    }
}

/// The key of an acceptable upgrade request, or why it is refused.
pub open spec fn check_request(request_line: Seq<u8>, lines: Seq<Seq<u8>>) -> Result<
    Seq<u8>,
    HandshakeError,
> {
    let key = header_value(lines, KEY_HEADER.spec_bytes());
    let upgrade = header_value(lines, UPGRADE_HEADER.spec_bytes());
    let connection = header_value(lines, CONNECTION_HEADER.spec_bytes());
    let version = header_value(lines, VERSION_HEADER.spec_bytes());
    if !crate::text::starts_with(request_line, METHOD_GET.spec_bytes()) {
        Err(HandshakeError::InvalidMethod)
    } else if key is None {
        Err(HandshakeError::MissingKey)
    } else if !(upgrade matches Some(v) && crate::text::lower(v) == WEBSOCKET_TOKEN.spec_bytes()) {
        Err(HandshakeError::InvalidUpgrade)
    } else if !(connection matches Some(v) && crate::text::contains(
        crate::text::lower(v),
        UPGRADE_HEADER.spec_bytes(),
    )) {
        Err(HandshakeError::InvalidConnection)
    } else if version matches Some(v) && crate::text::trim(v) != SUPPORTED_VERSION.spec_bytes() {
        Err(HandshakeError::UnsupportedVersion)
    } else {
        Ok(key.unwrap())
    }
}

/// Splits a header line at its first colon.
pub fn parse_header_line(line: &[u8]) -> (r: Option<(Vec<u8>, Vec<u8>)>)
    ensures
        match r {
            None => header_entry(line@) is None,
            Some((k, v)) => header_entry(line@) == Some((k@, v@)),
        },
{
    let len: usize = line.len();
    let mut i: usize = 0;
    while i < len
        invariant
            i <= len,
            len == line@.len(),
            forall|j: int| 0 <= j < i ==> line@[j] != 58,
        decreases len - i,
    {
        if line[i] == 58 {
            assert(first_colon(line@, i as int));
            assert forall|m: int| first_colon(line@, m) implies m == i by {
                if m < i {
                } else if m > i {
                    assert(line@[i as int] == 58);
                }
            }
            let name = trim_range(line, 0, i);
            let name = to_lower(name.as_slice());
            let value = trim_range(line, i + 1, len);
            return Some((name, value));
        }
        i = i + 1;
    }
    assert(!exists|m: int| first_colon(line@, m));
    None
}

/// The value of the last header line named `name`.
pub fn find_header(lines: &Vec<Vec<u8>>, name: &[u8]) -> (r: Option<Vec<u8>>)
    ensures
        match r {
            None => header_value(lines.deep_view(), name@) is None,
            Some(v) => header_value(lines.deep_view(), name@) == Some(v@),
        },
{
    let mut i: usize = lines.len();
    assert(lines.deep_view().subrange(0, i as int) =~= lines.deep_view());
    while i > 0
        invariant
            i <= lines@.len(),
            header_value(lines.deep_view(), name@) == header_value(
                lines.deep_view().subrange(0, i as int),
                name@,
            ),
        decreases i,
    {
        let ghost prefix = lines.deep_view().subrange(0, i as int);
        assert(prefix.last() == lines[i - 1]@);
        assert(prefix.drop_last() =~= lines.deep_view().subrange(0, i - 1));
        match parse_header_line(lines[i - 1].as_slice()) {
            Some((k, v)) => {
                if bytes_eq(k.as_slice(), name) {
                    return Some(v);
                }
            },
            None => {},
        }
        i = i - 1;
    }
    None
}

/// The SHA-1 digest of `data`.
pub uninterp spec fn sha1_digest(data: Seq<u8>) -> Seq<u8>;

/// Relies on `sha1::Sha1` through `digest::Digest::digest`: the SHA-1 digest
/// of the bytes, which is twenty bytes long.
#[verifier::external_body]
fn sha1(data: &[u8]) -> (r: Vec<u8>)
    ensures
        r@ == sha1_digest(data@),
        r@.len() == 20,
{
    sha1::Sha1::digest(data).to_vec()
}

/// The base64 digit for a six-bit value.
pub open spec fn b64_digit(v: int) -> u8 {
    if v < 26 {
        (65 + v) as u8
    } else if v < 52 {
        (97 + v - 26) as u8
    } else if v < 62 {
        (48 + v - 52) as u8
    } else if v == 62 {
        43u8
    } else {
        47u8
    }
}

/// Base64 with the standard alphabet and `=` padding: each three bytes
/// become four digits; a last group of one or two bytes is padded.
pub open spec fn base64_of(b: Seq<u8>) -> Seq<u8>
    decreases b.len(),
{
    if b.len() == 0 {
        Seq::empty()
    } else if b.len() == 1 {
        seq![b64_digit(b[0] as int / 4), b64_digit((b[0] % 4) * 16), 61u8, 61u8]
    } else if b.len() == 2 {
        seq![
            b64_digit(b[0] as int / 4),
            b64_digit((b[0] % 4) * 16 + b[1] / 16),
            b64_digit((b[1] % 16) * 4),
            61u8,
        ]
    } else {
        seq![
            b64_digit(b[0] as int / 4),
            b64_digit((b[0] % 4) * 16 + b[1] / 16),
            b64_digit((b[1] % 16) * 4 + b[2] / 64),
            b64_digit(b[2] as int % 64),
        ] + base64_of(b.subrange(3, b.len() as int))
    }
}

/// Relies on `base64::engine::general_purpose::STANDARD` and
/// `base64::Engine::encode`: the standard alphabet, padded with `=`. The
/// encoder panics where the encoded length overflows `usize`, which the
/// bound on the input excludes.
#[verifier::external_body]
fn base64_encode(data: &[u8]) -> (r: Vec<u8>)
    requires
        data@.len() <= usize::MAX / 2,
    ensures
        r@ == base64_of(data@),
{
    base64::engine::general_purpose::STANDARD.encode(data).into_bytes()
}

/// The accept value that answers `key`.
pub open spec fn accept_of(key: Seq<u8>) -> Seq<u8> {
    base64_of(sha1_digest(key + WS_GUID.spec_bytes()))
}

/// Computes the accept value for a client's `Sec-WebSocket-Key`.
pub fn accept_key(key: &[u8]) -> (r: Vec<u8>)
    ensures
        r@ == accept_of(key@),
{
    let mut data: Vec<u8> = Vec::new();
    append_bytes(&mut data, key);
    append_bytes(&mut data, WS_GUID.as_bytes());
    assert(data@ =~= key@ + WS_GUID.spec_bytes());
    let digest = sha1(data.as_slice());
    accept_from_digest(digest.as_slice())
}

/// The accept value for a computed digest: its base64 form.
pub fn accept_from_digest(digest: &[u8]) -> (r: Vec<u8>)
    requires
        digest@.len() <= usize::MAX / 2,
    ensures
        r@ == base64_of(digest@),
{
    base64_encode(digest)
}

/// The response that completes the upgrade.
pub open spec fn response_bytes(accept: Seq<u8>) -> Seq<u8> {
    RESPONSE_HEAD.spec_bytes() + accept + RESPONSE_TAIL.spec_bytes()
}

/// Writes the response that completes the upgrade with `accept`.
pub fn handshake_response(accept: &[u8]) -> (r: Vec<u8>)
    ensures
        r@ == response_bytes(accept@),
{
    let mut out: Vec<u8> = Vec::new();
    append_bytes(&mut out, RESPONSE_HEAD.as_bytes());
    append_bytes(&mut out, accept);
    append_bytes(&mut out, RESPONSE_TAIL.as_bytes());
    assert(out@ =~= response_bytes(accept@));
    out
}

/// Whether a header line ends the request: the blank line.
pub fn is_blank_line(line: &[u8]) -> (r: bool)
    ensures
        r == (line@ == seq![13u8, 10u8]),
{
    let r = line.len() == 2 && line[0] == 13 && line[1] == 10;
    assert(r ==> line@ =~= seq![13u8, 10u8]);
    r
}

/// Checks an upgrade request (its request line, then its header lines up to
/// the blank line) and gives the response to write, or why it is refused.
pub fn negotiate(request_line: &[u8], header_lines: &Vec<Vec<u8>>) -> (r: Result<
    Vec<u8>,
    HandshakeError,
>)
    ensures
        match check_request(request_line@, header_lines.deep_view()) {
            Ok(key) => r matches Ok(resp) && resp@ == response_bytes(accept_of(key)),
            Err(e) => r == Err::<Vec<u8>, HandshakeError>(e),
        },
{
    if !starts_with_bytes(request_line, METHOD_GET.as_bytes()) {
        return Err(HandshakeError::InvalidMethod);
    }
    let key = match find_header(header_lines, KEY_HEADER.as_bytes()) {
        None => {
            return Err(HandshakeError::MissingKey);
        },
        Some(k) => k,
    };
    let upgrade_ok = match find_header(header_lines, UPGRADE_HEADER.as_bytes()) {
        Some(v) => bytes_eq(to_lower(v.as_slice()).as_slice(), WEBSOCKET_TOKEN.as_bytes()),
        None => false,
    };
    if !upgrade_ok {
        return Err(HandshakeError::InvalidUpgrade);
    }
    let connection_ok = match find_header(header_lines, CONNECTION_HEADER.as_bytes()) {
        Some(v) => contains_bytes(to_lower(v.as_slice()).as_slice(), UPGRADE_HEADER.as_bytes()),
        None => false,
    };
    if !connection_ok {
        return Err(HandshakeError::InvalidConnection);
    }
    match find_header(header_lines, VERSION_HEADER.as_bytes()) {
        Some(v) => {
            let t = trim_range(v.as_slice(), 0, v.len());
            assert(v@.subrange(0, v@.len() as int) =~= v@);
            if !bytes_eq(t.as_slice(), SUPPORTED_VERSION.as_bytes()) {
                return Err(HandshakeError::UnsupportedVersion);
            }
        },
        None => {},
    }
    let accept = accept_key(key.as_slice());
    Ok(handshake_response(accept.as_slice()))
}

} // verus!
