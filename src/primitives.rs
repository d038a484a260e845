//! The calls this library makes into other crates (base64, hmac/sha2,
//! urlencoding, url, uuid, chrono, ring, serde_urlencoded) and into std where
//! vstd gives no specification. Each item states what it relies on.
use vstd::prelude::*;
use vstd::utf8::{decode_utf8, encode_utf8, valid_utf8};
use base64::Engine;
use hmac::Mac;
use ring::rand::SecureRandom;

verus! {

/// HMAC-SHA256 of `msg` under `key`.
pub uninterp spec fn hmac_sha256_of(key: Seq<u8>, msg: Seq<u8>) -> Seq<u8>;

/// HMAC-SHA512 of `msg` under `key`.
pub uninterp spec fn hmac_sha512_of(key: Seq<u8>, msg: Seq<u8>) -> Seq<u8>;

/// Standard base64 (RFC 4648 alphabet) of `b`, without padding.
pub uninterp spec fn base64_of(b: Seq<u8>) -> Seq<char>;

/// What standard unpadded base64 decoding makes of `s`, if it accepts it.
pub uninterp spec fn base64_decoded_of(s: Seq<char>) -> Option<Seq<u8>>;

/// The query pairs of the URL `s`, percent-decoded, if `s` parses as a URL.
pub uninterp spec fn url_query_of(s: Seq<char>) -> Option<Seq<(Seq<char>, Seq<char>)>>;

/// The URL `s` serialized without its query and fragment, if it parses.
pub uninterp spec fn url_stripped_of(s: Seq<char>) -> Option<Seq<char>>;

/// The URL `reference` resolved against `base`, if both parse.
pub uninterp spec fn url_joined_of(base: Seq<char>, reference: Seq<char>) -> Option<Seq<char>>;

/// The URL `s` with `pairs` appended to its query, form-encoded.
pub uninterp spec fn url_with_pairs_of(s: Seq<char>, pairs: Seq<(Seq<char>, Seq<char>)>) -> Option<
    Seq<char>,
>;

/// The '/'-separated segments of the path of the URL `s`, if it has a path
/// of segments.
pub uninterp spec fn url_segments_of(s: Seq<char>) -> Option<Seq<Seq<char>>>;

/// The key/value pairs of the `application/x-www-form-urlencoded` text `s`.
pub uninterp spec fn form_pairs_of(s: Seq<char>) -> Option<Seq<(Seq<char>, Seq<char>)>>;

/// The sixteen bytes that a UUID text denotes, if it is one.
pub uninterp spec fn uuid_parsed_of(s: Seq<char>) -> Option<Seq<u8>>;

pub open spec fn str_pairs(v: Seq<(String, String)>) -> Seq<(Seq<char>, Seq<char>)> {
    v.map_values(|p: (String, String)| p@)
}

pub open spec fn str_seqs(v: Seq<String>) -> Seq<Seq<char>> {
    v.map_values(|s: String| s@)
}

/// Bytes that percent-encoding leaves as they are: ASCII letters, digits,
/// `-`, `.`, `_` and `~`.
pub open spec fn is_unreserved(b: u8) -> bool {
    (48 <= b <= 57) || (65 <= b <= 90) || (97 <= b <= 122) || b == 45 || b == 46 || b == 95
        || b == 126
}

pub open spec fn hex_upper(n: u8) -> u8 {
    if n < 10 {
        (48 + n) as u8
    } else {
        (55 + n) as u8
    }
}

pub open spec fn pct_byte(b: u8) -> Seq<u8> {
    if is_unreserved(b) {
        seq![b]
    } else {
        seq![37u8, hex_upper(b / 16), hex_upper(b % 16)]
    }
}

/// Percent-encoding: each byte but the unreserved ones becomes `%XX`, with
/// upper-case hexadecimal digits.
pub open spec fn pct_bytes(s: Seq<u8>) -> Seq<u8>
    decreases s.len(),
{
    if s.len() == 0 {
        Seq::empty()
    } else {
        pct_bytes(s.drop_last()) + pct_byte(s.last())
    }
}

/// Relies on hmac's `Hmac<Sha256>`: the MAC of `msg` under `key`. Keys of
/// any length are accepted (`new_from_slice` hashes or pads them).
#[verifier::external_body]
pub(crate) fn hmac_sha256(key: &[u8], msg: &[u8]) -> (r: Vec<u8>)
    ensures
        r@ == hmac_sha256_of(key@, msg@),
{
    match hmac::Hmac::<sha2::Sha256>::new_from_slice(key) {
        Ok(mut mac) => {
            mac.update(msg);
            mac.finalize().into_bytes().to_vec()
        },
        Err(_) => Vec::new(),
    }
}

/// Relies on hmac's `Hmac<Sha512>`: the MAC of `msg` under `key`. Keys of
/// any length are accepted.
#[verifier::external_body]
pub(crate) fn hmac_sha512(key: &[u8], msg: &[u8]) -> (r: Vec<u8>)
    ensures
        r@ == hmac_sha512_of(key@, msg@),
{
    match hmac::Hmac::<sha2::Sha512>::new_from_slice(key) {
        Ok(mut mac) => {
            mac.update(msg);
            mac.finalize().into_bytes().to_vec()
        },
        Err(_) => Vec::new(),
    }
}

/// Relies on base64's `STANDARD_NO_PAD` engine, `encode`: four characters
/// for each three bytes, and no padding after a last partial group.
#[verifier::external_body]
pub(crate) fn base64_encode(b: &[u8]) -> (r: String)
    ensures
        r@ == base64_of(b@),
        r@.len() == (4 * b@.len() + 2) / 3,
{
    base64::engine::general_purpose::STANDARD_NO_PAD.encode(b)
}

/// Relies on base64's `STANDARD_NO_PAD` engine, `decode`: it gives back the
/// bytes that `encode` was given.
#[verifier::external_body]
pub(crate) fn base64_decode(s: &str) -> (r: Option<Vec<u8>>)
    ensures
        r matches Some(v) ==> base64_decoded_of(s@) == Some(v@),
        r is None ==> base64_decoded_of(s@) is None,
        forall|b: Seq<u8>| s@ == #[trigger] base64_of(b) ==> r is Some && r->0@ == b,
{
    base64::engine::general_purpose::STANDARD_NO_PAD.decode(s).ok()
}

/// Relies on urlencoding's `encode_binary`: every byte but ASCII letters,
/// digits, `-`, `.`, `_`, `~` becomes `%` and two upper-case hex digits.
#[verifier::external_body]
pub(crate) fn percent_encode(b: &[u8]) -> (r: Vec<u8>)
    ensures
        r@ == pct_bytes(b@),
{
    urlencoding::encode_binary(b).into_owned().into_bytes()
}

/// Relies on std's `String::from_utf8`: it accepts exactly the valid UTF-8
/// byte strings.
#[verifier::external_body]
pub(crate) fn string_from_utf8(v: Vec<u8>) -> (r: Option<String>)
    ensures
        r is Some <==> valid_utf8(v@),
        r matches Some(s) ==> s@ == decode_utf8(v@),
{
    String::from_utf8(v).ok()
}

/// Relies on url's `Url::parse` and `query_pairs`: the decoded query pairs.
#[verifier::external_body]
pub(crate) fn url_query_pairs(s: &str) -> (r: Option<Vec<(String, String)>>)
    ensures
        r matches Some(v) ==> url_query_of(s@) == Some(str_pairs(v@)),
        r is None ==> url_query_of(s@) is None,
{
    let url = url::Url::parse(s).ok()?;
    Some(url.query_pairs().map(|(k, v)| (k.into_owned(), v.into_owned())).collect())
}

/// Relies on url's `Url::parse`, `set_query(None)`, `set_fragment(None)` and
/// its serialization.
#[verifier::external_body]
pub(crate) fn url_without_query(s: &str) -> (r: Option<String>)
    ensures
        r matches Some(u) ==> url_stripped_of(s@) == Some(u@),
        r is None ==> url_stripped_of(s@) is None,
{
    let mut url = url::Url::parse(s).ok()?;
    url.set_query(None);
    url.set_fragment(None);
    Some(url.to_string())
}

/// Relies on url's `Url::join`: `reference` resolved against `base`.
#[verifier::external_body]
pub(crate) fn url_join(base: &str, reference: &str) -> (r: Option<String>)
    ensures
        r matches Some(u) ==> url_joined_of(base@, reference@) == Some(u@),
        r is None ==> url_joined_of(base@, reference@) is None,
{
    let base = url::Url::parse(base).ok()?;
    base.join(reference).ok().map(|u| u.to_string())
}

/// Relies on url's `query_pairs_mut().extend_pairs`: the pairs are appended
/// to the query of the URL `s`.
#[verifier::external_body]
pub(crate) fn url_extend_query(s: &str, pairs: &Vec<(String, String)>) -> (r: Option<String>)
    ensures
        r matches Some(u) ==> url_with_pairs_of(s@, str_pairs(pairs@)) == Some(u@),
        r is None ==> url_with_pairs_of(s@, str_pairs(pairs@)) is None,
{
    let mut url = url::Url::parse(s).ok()?;
    url.query_pairs_mut().extend_pairs(pairs.iter());
    Some(url.to_string())
}

/// Relies on url's `Url::path_segments`: the path split at '/', for a URL
/// that has a hierarchical path.
#[verifier::external_body]
pub(crate) fn url_path_segments(s: &str) -> (r: Option<Vec<String>>)
    ensures
        r matches Some(v) ==> url_segments_of(s@) == Some(str_seqs(v@)),
        r is None ==> url_segments_of(s@) is None,
{
    let url = url::Url::parse(s).ok()?;
    url.path_segments().map(|segs| segs.map(|seg| seg.to_string()).collect())
}

/// Relies on serde_urlencoded's `from_str` into a list of string pairs.
#[verifier::external_body]
pub(crate) fn form_pairs(s: &str) -> (r: Option<Vec<(String, String)>>)
    ensures
        r matches Some(v) ==> form_pairs_of(s@) == Some(str_pairs(v@)),
        r is None ==> form_pairs_of(s@) is None,
{
    serde_urlencoded::from_str::<Vec<(String, String)>>(s).ok()
}

/// Relies on uuid's `Uuid::parse_str`; it accepts, among other forms, the
/// hyphenated lower-case text that `Display` writes.
#[verifier::external_body]
pub(crate) fn uuid_parse(s: &str) -> (r: Option<[u8; 16]>)
    ensures
        r matches Some(b) ==> uuid_parsed_of(s@) == Some(b@),
        r is None ==> uuid_parsed_of(s@) is None,
        forall|b: Seq<u8>|
            b.len() == 16 && encode_utf8(s@) == #[trigger] crate::ids::uuid_text(b) ==> r is Some
                && r->0@ == b,
{
    uuid::Uuid::parse_str(s).ok().map(|u| u.into_bytes())
}

/// Relies on ring's `SystemRandom::fill` for sixteen random bytes, and on
/// uuid's `Builder::from_random_bytes`, which sets the version 4 and variant
/// bits: the bytes of a random UUID, or nothing where the generator fails.
#[verifier::external_body]
pub(crate) fn random_uuid() -> (r: Option<[u8; 16]>) {
    let mut buf = [0u8; 16];
    ring::rand::SystemRandom::new().fill(&mut buf).ok()?;
    Some(uuid::Builder::from_random_bytes(buf).into_uuid().into_bytes())
}

/// Relies on ring's `SystemRandom::fill`: 32 bytes from the system's secure
/// generator, or nothing where it fails.
#[verifier::external_body]
pub(crate) fn random_secret() -> (r: Option<Vec<u8>>)
    ensures
        r matches Some(v) ==> v@.len() == 32,
{
    let mut buf = [0u8; 32];
    ring::rand::SystemRandom::new().fill(&mut buf).ok()?;
    Some(buf.to_vec())
}

/// Relies on chrono's `From<SystemTime> for DateTime<Utc>` and `timestamp`:
/// seconds since the Unix epoch, negative for a clock set before it.
/// (chrono's conversion unwraps only for instants beyond its range of about
/// 262,000 years either side of the epoch.)
#[verifier::external_body]
pub(crate) fn unix_now() -> (r: i64) {
    chrono::DateTime::<chrono::Utc>::from(std::time::SystemTime::now()).timestamp()
}

} // verus!
