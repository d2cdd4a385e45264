use vstd::prelude::*;
use crate::request::is_http_token;
use base64::Engine;
use rand::seq::SliceRandom;
use rand::Rng;
use crate::edge::EdgeAddr;
use crate::pem::{PemSection, PemSectionView};

verus! {

/// The outside error of the UUID parser, carried through unchanged.
#[verifier::external_type_specification]
#[verifier::external_body]
pub struct ExUuidError(uuid::Error);

/// The outside error of the base64 decoder, carried through unchanged.
#[verifier::external_type_specification]
#[verifier::external_body]
pub struct ExDecodeError(base64::DecodeError);

/// The outside error for a method token that HTTP refuses.
#[verifier::external_type_specification]
#[verifier::external_body]
pub struct ExInvalidMethod(http::method::InvalidMethod);

/// The outside error for a text that is not a URI.
#[verifier::external_type_specification]
#[verifier::external_body]
pub struct ExInvalidUri(http::uri::InvalidUri);

/// The standard I/O error, carried through unchanged.
#[verifier::external_type_specification]
#[verifier::external_body]
pub struct ExIoError(std::io::Error);

/// `std::io::Error::other` with the message of a refused protocol name: an
/// error of kind `Other` whose text is that message. Nothing is stated of the
/// error value, which Verus cannot see into.
#[verifier::external_body]
pub(crate) fn invalid_protocol_error() -> (r: std::io::Error) {
    std::io::Error::other("Invalid protocol, must be one of quic, http2")
}

/// `http::Method::from_bytes`: accepts exactly the non-empty texts whose
/// characters are all HTTP token characters; the method itself is not kept.
#[verifier::external_body]
pub(crate) fn check_method(m: &str) -> (r: Result<(), http::method::InvalidMethod>)
    ensures
        r is Ok <==> is_http_token(m@),
{
    http::Method::from_bytes(m.as_bytes()).map(|_| ())
}

/// The text that standard-alphabet base64 writes for `data`, with or without
/// `=` padding.
pub uninterp spec fn base64_encode(padded: bool, data: Seq<u8>) -> Seq<char>;

/// A symbol of the standard base64 alphabet.
pub open spec fn base64_symbol(c: char) -> bool {
    ('A' <= c && c <= 'Z') || ('a' <= c && c <= 'z') || ('0' <= c && c <= '9') || c == '+'
        || c == '/'
}

/// `base64::engine::general_purpose::STANDARD_NO_PAD.encode`: the unpadded
/// standard encoding, written with symbols of the standard alphabet only.
#[verifier::external_body]
pub(crate) fn encode_base64_no_pad(data: &[u8]) -> (r: String)
    requires
        data@.len() <= isize::MAX,
    ensures
        r@ == base64_encode(false, data@),
        forall|i: int| 0 <= i < r@.len() ==> base64_symbol(#[trigger] r@[i]),
{
    base64::engine::general_purpose::STANDARD_NO_PAD.encode(data)
}

/// `base64::engine::general_purpose::STANDARD.encode`: the padded standard
/// encoding, written with symbols of the standard alphabet and `=` only.
#[verifier::external_body]
pub(crate) fn encode_base64(data: &[u8]) -> (r: String)
    requires
        data@.len() <= isize::MAX,
    ensures
        r@ == base64_encode(true, data@),
        forall|i: int| 0 <= i < r@.len() ==> base64_symbol(#[trigger] r@[i]) || r@[i] == '=',
{
    base64::engine::general_purpose::STANDARD.encode(data)
}

/// `base64::engine::general_purpose::STANDARD.decode`: with canonical padding
/// required and no stray trailing bits, it accepts exactly the texts that the
/// padded standard encoding writes, and gives back the one byte string that
/// encodes to the text.
#[verifier::external_body]
pub(crate) fn decode_base64(text: &str) -> (r: Result<Vec<u8>, base64::DecodeError>)
    ensures
        match r {
            Ok(v) => base64_encode(true, v@) == text@ && forall|b: Seq<u8>|
                base64_encode(true, b) == text@ ==> b == v@,
            Err(_) => forall|b: Seq<u8>| base64_encode(true, b) != text@,
        },
{
    base64::engine::general_purpose::STANDARD.decode(text)
}

/// The bytes of a version-4 UUID: sixteen of them, with version 4 and the
/// RFC 4122 variant.
pub open spec fn is_v4_uuid(b: Seq<u8>) -> bool {
    b.len() == 16 && b[6] / 16 == 4 && b[8] / 64 == 2
}

/// The sixteen bytes of the UUID that `text` writes, if it writes one.
pub uninterp spec fn parsed_uuid(text: Seq<char>) -> Option<Seq<u8>>;

/// `uuid::Uuid::parse_str`, keeping the UUID's bytes.
#[verifier::external_body]
pub(crate) fn parse_uuid(text: &str) -> (r: Result<[u8; 16], uuid::Error>)
    ensures
        match r {
            Ok(b) => parsed_uuid(text@) == Some(b@),
            Err(_) => parsed_uuid(text@) is None,
        },
{
    uuid::Uuid::parse_str(text).map(|u| *u.as_bytes())
}

/// `uuid::Uuid::new_v4`: the bytes of a random version-4 UUID. The version
/// nibble (the high half of byte 6) is 4 and the variant bits (the top two of
/// byte 8) are `10`; which of the other bits come out is left to the random
/// source.
#[verifier::external_body]
pub(crate) fn random_uuid() -> (r: [u8; 16])
    ensures
        is_v4_uuid(r@),
{
    *uuid::Uuid::new_v4().as_bytes()
}

/// `rand::Rng::fill` on the thread's generator: thirty-two random bytes.
/// Nothing is stated of which bytes come out: they come from the random source.
#[verifier::external_body]
pub(crate) fn random_secret() -> (r: [u8; 32]) {
    let mut s = [0u8; 32];
    rand::thread_rng().fill(&mut s[..]);
    s
}

/// `rand::seq::SliceRandom::choose` on the thread's generator: one of the
/// addresses, which one left to chance, or none when there are none.
#[verifier::external_body]
pub(crate) fn choose_addr(addrs: &Vec<EdgeAddr>) -> (r: Option<EdgeAddr>)
    ensures
        r is Some <==> addrs@.len() > 0,
        r matches Some(a) ==> addrs@.contains(a),
{
    addrs.choose(&mut rand::thread_rng()).copied()
}

/// The parts of a URI that a request needs, if the text is a URI: its path
/// and query as `Display` writes them, when it has them, and its host, when it
/// has one.
pub uninterp spec fn parsed_uri(text: Seq<char>) -> Option<(Option<Seq<char>>, Option<Seq<char>>)>;

/// `http::Uri::from_str`, keeping `path_and_query()` (written out with
/// `to_string`) and `host()`.
#[verifier::external_body]
pub(crate) fn parse_uri(text: &str) -> (r: Result<(Option<String>, Option<String>), http::uri::InvalidUri>)
    ensures
        match r {
            Ok((pq, host)) => parsed_uri(text@) == Some(
                (
                    match pq {
                        Some(p) => Some(p@),
                        None => None,
                    },
                    match host {
                        Some(h) => Some(h@),
                        None => None,
                    },
                ),
            ),
            Err(_) => parsed_uri(text@) is None,
        },
{
    let uri: http::Uri = text.parse()?;
    let pq = match uri.path_and_query() {
        Some(p) => Some(p.to_string()),
        None => None,
    };
    let host = match uri.host() {
        Some(h) => Some(h.to_owned()),
        None => None,
    };
    Ok((pq, host))
}

/// The sections that reading a PEM text yields, in order.
pub uninterp spec fn pem_sections(pem: Seq<u8>) -> Seq<PemSectionView>;

/// `rustls_pemfile::read_all` over the bytes of a PEM text, each section kept
/// as its certificate's bytes, as another kind, or as unreadable.
#[verifier::external_body]
pub(crate) fn read_pem_sections(pem: &[u8]) -> (r: Vec<PemSection>)
    ensures
        r@.map_values(|s: PemSection| s@) == pem_sections(pem@),
{
    let mut rd: &[u8] = pem;
    rustls_pemfile::read_all(&mut rd).map(|item| match item {
        Ok(rustls_pemfile::Item::X509Certificate(c)) => PemSection::Certificate(c.to_vec()),
        Ok(_) => PemSection::Other,
        Err(_) => PemSection::Unreadable,
    }).collect()
}

} // verus!
