//! The web dashboard's configuration values and session identifiers.

use vstd::prelude::*;
use vstd::string::*;
use vstd::utf8::*;

verus! {

#[verifier::external_type_specification]
#[verifier::external_body]
pub struct ExDecodeError(base64::DecodeError);

/// The serialization of the URL that `url::Url::parse` reads from `text`.
pub uninterp spec fn url_serialization(text: Seq<char>) -> Option<Seq<char>>;

/// The scheme of the URL that `url::Url::parse` reads from `text`.
pub uninterp spec fn url_scheme(text: Seq<char>) -> Option<Seq<char>>;

/// The serialization of `url::Url::join` of `segment` onto the URL `base`.
pub uninterp spec fn url_join(base: Seq<char>, segment: Seq<char>) -> Option<Seq<char>>;

/// The standard base64 alphabet: the character for each six-bit value.
pub open spec fn base64_alphabet() -> Seq<char> {
    "ABCDEFGHIJKLMNOPQRSTUVWXYZabcdefghijklmnopqrstuvwxyz0123456789+/"@
}

/// Standard base64 with padding of `data`, as `base64::encode` writes it:
/// every three bytes become four characters of six bits each, and one or
/// two bytes left over become two or three characters padded with `=` to
/// four.
pub open spec fn base64_standard(data: Seq<u8>) -> Seq<char>
    decreases data.len(),
{
    let ghost a = base64_alphabet();
    if data.len() == 0 {
        Seq::empty()
    } else if data.len() == 1 {
        seq![a[(data[0] / 4) as int], a[(data[0] % 4) * 16], '=', '=']
    } else if data.len() == 2 {
        seq![a[(data[0] / 4) as int], a[(data[0] % 4) * 16 + data[1] / 16], a[(data[1] % 16) * 4], '=']
    } else {
        seq![
            a[(data[0] / 4) as int],
            a[(data[0] % 4) * 16 + data[1] / 16],
            a[(data[1] % 16) * 4 + data[2] / 64],
            a[(data[2] % 64) as int],
        ] + base64_standard(data.skip(3))
    }
}

/// URL-safe base64 without padding of `data`.
pub uninterp spec fn base64_url(data: Seq<u8>) -> Seq<char>;

/// A character of the URL-safe base64 alphabet.
pub open spec fn url_safe_base64_char(c: char) -> bool {
    ('A' <= c <= 'Z') || ('a' <= c <= 'z') || ('0' <= c <= '9') || c == '-' || c == '_'
}

/// The length of unpadded base64 of `n` bytes: four characters for every
/// three bytes, and two or three more for one or two bytes left over.
pub open spec fn unpadded_base64_len(n: nat) -> nat {
    (4 * n + 2) / 3
}

/// The bytes that URL-safe, unpadded base64 decoding reads from `text`, if
/// it is valid.
pub uninterp spec fn base64_url_decoded(text: Seq<u8>) -> Option<Seq<u8>>;

/// Parses and re-serializes a URL with `url::Url::parse`.
///
/// Trusted: the result is the named `url_serialization`.
#[verifier::external_body]
fn serialize_url(text: &str) -> (r: Option<String>)
    ensures
        r is Some <==> url_serialization(text@) is Some,
        r matches Some(s) ==> url_serialization(text@) == Some(s@),
{
    url::Url::parse(text).ok().map(|u| u.to_string())
}

/// The scheme of a URL, from `url::Url::scheme`.
///
/// Trusted: the result is the named `url_scheme`.
#[verifier::external_body]
fn scheme_of_url(text: &str) -> (r: Option<String>)
    ensures
        r is Some <==> url_scheme(text@) is Some,
        r matches Some(s) ==> url_scheme(text@) == Some(s@),
{
    url::Url::parse(text).ok().map(|u| u.scheme().to_string())
}

/// Joins a segment onto a URL with `url::Url::join`.
///
/// Trusted: the result is the named `url_join`.
#[verifier::external_body]
fn join_url(base: &str, segment: &str) -> (r: Option<String>)
    ensures
        r is Some <==> url_join(base@, segment@) is Some,
        r matches Some(s) ==> url_join(base@, segment@) == Some(s@),
{
    url::Url::parse(base).ok().and_then(|u| u.join(segment).ok()).map(|u| u.to_string())
}

/// `base64::encode`.
///
/// Trusted: the result is `base64_standard(data)`, the standard alphabet
/// with padding, as the crate's encoder writes it. The length bound keeps
/// the crate's size computation from overflowing.
#[verifier::external_body]
fn encode_base64_standard(data: &[u8]) -> (r: String)
    requires
        data@.len() <= usize::MAX / 4,
    ensures
        r@ == base64_standard(data@),
{
    base64::encode(data)
}

/// `base64::encode_config` with `URL_SAFE_NO_PAD`.
///
/// Trusted: the result is the named `base64_url`; as the crate's encoder
/// shows, it is written in the URL-safe alphabet, four characters for every
/// three bytes and two or three for the bytes left over, without padding;
/// and, as for any base64 encoding, decoding it with the same
/// configuration gives `data` back.
#[verifier::external_body]
fn encode_base64_url(data: &[u8]) -> (r: String)
    requires
        data@.len() <= usize::MAX / 4,
    ensures
        r@ == base64_url(data@),
        r@.len() == unpadded_base64_len(data@.len()),
        forall|k: int| 0 <= k < r@.len() ==> url_safe_base64_char(#[trigger] r@[k]),
        base64_url_decoded(encode_utf8(r@)) == Some(data@),
{
    base64::encode_config(data, base64::URL_SAFE_NO_PAD)
}

/// `base64::decode_config` with `URL_SAFE_NO_PAD`.
///
/// Trusted: `Ok` exactly when the named `base64_url_decoded` has bytes, and
/// then those bytes. The length bound keeps the crate's size computation
/// from overflowing.
#[verifier::external_body]
fn decode_base64_url(text: &[u8]) -> (r: Result<Vec<u8>, base64::DecodeError>)
    requires
        text@.len() <= usize::MAX - 3,
    ensures
        r is Ok <==> base64_url_decoded(text@) is Some,
        r matches Ok(v) ==> base64_url_decoded(text@) == Some(v@),
{
    base64::decode_config(text, base64::URL_SAFE_NO_PAD)
}

/// Whether the dashboard is served over TLS: when TLS is configured, or
/// when the configured base URL uses `https`.
pub fn uses_tls(tls_configured: bool, base_url: Option<&str>) -> (r: bool)
    ensures
        r == (tls_configured || (base_url matches Some(b) && url_scheme(b@) == Some("https"@))),
{
    if tls_configured {
        return true;
    }
    match base_url {
        Some(b) => match scheme_of_url(b) {
            Some(scheme) => {
                let https = "https".to_owned();
                scheme == https
            },
            None => false,
        },
        None => false,
    }
}

/// The URL that Discord redirects to after authorization: `callback`
/// joined onto the base URL, or, without one,
/// `<http or https>://<address>/callback`. `None` where that is not a URL.
pub fn redirect_url(tls_configured: bool, base_url: Option<&str>, address: &str) -> (r: Option<String>)
    ensures
        base_url matches Some(b) ==> (match r {
            Some(s) => url_join(b@, "callback"@) == Some(s@),
            None => url_join(b@, "callback"@) is None,
        }),
        base_url is None ==> ({
            let text = (if tls_configured {
                "https"@
            } else {
                "http"@
            }) + "://"@ + address@ + "/callback"@;
            match r {
                Some(s) => url_serialization(text) == Some(s@),
                None => url_serialization(text) is None,
            }
        }),
{
    match base_url {
        Some(b) => join_url(b, "callback"),
        None => {
            let scheme = if tls_configured {
                "https"
            } else {
                "http"
            };
            let text = scheme.to_owned().concat("://").concat(address).concat("/callback");
            serialize_url(text.as_str())
        },
    }
}

/// The authorization header for the OAuth client: `Basic ` and the base64
/// of `<client id>:<client secret>`.
pub fn client_authorization(client_id: &str, client_secret: &str) -> (r: String)
    requires
        encode_utf8(client_id@ + ":"@ + client_secret@).len() <= usize::MAX / 4,
    ensures
        r@ == "Basic "@ + base64_standard(encode_utf8(client_id@ + ":"@ + client_secret@)),
{
    let credentials = client_id.to_owned().concat(":").concat(client_secret);
    let encoded = encode_base64_standard(credentials.as_str().as_bytes());
    "Basic ".to_owned().concat(encoded.as_str())
}

/// The URL of a Discord API endpoint.
pub fn endpoint(name: &str) -> (r: String)
    ensures
        r@ == "https://discordapp.com/api/v8/"@ + name@,
{
    "https://discordapp.com/api/v8/".to_owned().concat(name)
}

/// Why a session cookie does not hold a session ID.
#[derive(Debug)]
pub enum InvalidSessionId {
    /// The cookie is not URL-safe base64.
    Base64(base64::DecodeError),
    /// The cookie decodes to this many bytes rather than 16.
    Length(usize),
}

/// The cookie text for a session ID: its 16 bytes in URL-safe base64
/// without padding.
pub fn encode_session_id(id: &[u8; 16]) -> (r: String)
    ensures
        r@ == base64_url(id@),
        base64_url_decoded(encode_utf8(r@)) == Some(id@),
        r@.len() == 22,
        encode_utf8(r@).len() == 22,
{
    let r = encode_base64_url(id.as_slice());
    proof {
        assert(is_ascii_chars(r@));
        is_ascii_chars_encode_utf8(r@);
    }
    r
}

/// The session ID a cookie holds: it must decode as URL-safe base64 to
/// exactly 16 bytes.
pub fn decode_session_id(cookie: &str) -> (r: Result<[u8; 16], InvalidSessionId>)
    requires
        encode_utf8(cookie@).len() <= usize::MAX - 3,
    ensures
        match base64_url_decoded(encode_utf8(cookie@)) {
            None => r matches Err(InvalidSessionId::Base64(_)),
            Some(bytes) => if bytes.len() == 16 {
                r matches Ok(id) && id@ == bytes
            } else {
                r matches Err(InvalidSessionId::Length(n)) && n == bytes.len()
            },
        },
{
    let bytes = match decode_base64_url(cookie.as_bytes()) {
        Ok(bytes) => bytes,
        Err(e) => return Err(InvalidSessionId::Base64(e)),
    };
    if bytes.len() != 16 {
        return Err(InvalidSessionId::Length(bytes.len()));
    }
    let mut id: [u8; 16] = [0u8; 16];
    let mut k: usize = 0;
    while k < 16
        invariant
            k <= 16,
            bytes@.len() == 16,
            forall|j: int| 0 <= j < k ==> id@[j] == bytes@[j],
        decreases 16 - k,
    {
        id[k] = bytes[k];
        k = k + 1;
    }
    assert(id@ =~= bytes@);
    Ok(id)
}

/// The session ID that a cookie holds: the bytes it decodes to as URL-safe
/// base64, when there are exactly 16 of them.
pub open spec fn session_id_in(cookie: Seq<char>) -> Option<Seq<u8>> {
    match base64_url_decoded(encode_utf8(cookie)) {
        Some(bytes) => if bytes.len() == 16 {
            Some(bytes)
        } else {
            None
        },
        None => None,
    }
}

/// The version and variant bits of a random (version 4, RFC 4122) UUID:
/// the high nibble of byte 6 is 4, and the two high bits of byte 8 are 10.
pub open spec fn is_v4_uuid(id: Seq<u8>) -> bool {
    &&& id.len() == 16
    &&& id[6] & 0xf0u8 == 0x40u8
    &&& id[8] & 0xc0u8 == 0x80u8
}

/// Sixteen bytes from the operating system's random source, by rand's
/// `OsRng::try_fill_bytes`.
///
/// Trusted only to return: `None` when the random source fails; nothing
/// is claimed of the bytes.
#[verifier::external_body]
fn os_random_bytes() -> (r: Option<[u8; 16]>) {
    let mut bytes = [0u8; 16];
    rand::RngCore::try_fill_bytes(&mut rand::rngs::OsRng, &mut bytes).ok().map(|_| bytes)
}

/// uuid's `Builder::from_random_bytes`, which makes random bytes a version
/// 4 UUID.
///
/// Trusted: as its source shows, it keeps every byte but byte 6, whose
/// high nibble becomes the version 4, and byte 8, whose two high bits
/// become the RFC 4122 variant.
#[verifier::external_body]
fn v4_uuid_from(bytes: [u8; 16]) -> (r: [u8; 16])
    ensures
        forall|k: int| 0 <= k < 16 && k != 6 && k != 8 ==> r@[k] == bytes@[k],
        r@[6] == (bytes@[6] & 0x0fu8) | 0x40u8,
        r@[8] == (bytes@[8] & 0x3fu8) | 0x80u8,
{
    uuid::Builder::from_random_bytes(bytes).into_uuid().into_bytes()
}

/// A random version 4 UUID; `None` when the random source fails.
fn random_uuid() -> (r: Option<[u8; 16]>)
    ensures
        r matches Some(id) ==> is_v4_uuid(id@),
{
    match os_random_bytes() {
        Some(bytes) => {
            let id = v4_uuid_from(bytes);
            let b6 = bytes[6];
            let b8 = bytes[8];
            assert(((b6 & 0x0fu8) | 0x40u8) & 0xf0u8 == 0x40u8) by (bit_vector);
            assert(((b8 & 0x3fu8) | 0x80u8) & 0xc0u8 == 0x80u8) by (bit_vector);
            Some(id)
        },
        None => None,
    }
}

/// A new session: a random version 4 UUID as its ID and the cookie text
/// that carries it, which reads back as that ID; `None` when the random
/// source fails.
pub fn new_session_id() -> (r: Option<([u8; 16], String)>)
    ensures
        r matches Some(session) ==> {
            &&& is_v4_uuid(session.0@)
            &&& session.1@ == base64_url(session.0@)
            &&& session.1@.len() == 22
            &&& session_id_in(session.1@) == Some(session.0@)
        },
{
    match random_uuid() {
        Some(id) => {
            let cookie = encode_session_id(&id);
            Some((id, cookie))
        },
        None => None,
    }
}

} // verus!
