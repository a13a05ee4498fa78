//! The calls this crate makes into code it does not verify: the hash and MAC
//! primitives, hex encoding, percent-decoding, date parsing, the clock, and
//! the few `String` operations that vstd leaves unspecified.
use hmac::Mac;
use sha2::Digest;
use vstd::prelude::*;
use vstd::utf8::decode_utf8;
use vstd::utf8::encode_utf8;
use vstd::utf8::valid_utf8;

use crate::codec::hex_lower;
use crate::codec::pct_decode;
use crate::codec::utf8_lossy;
use crate::text::opt_chars;

verus! {

/// The SHA-256 digest of a byte string.
pub uninterp spec fn sha256_of(data: Seq<u8>) -> Seq<u8>;

/// HMAC-SHA256 of `data` under `key`.
pub uninterp spec fn hmac_sha256_of(key: Seq<u8>, data: Seq<u8>) -> Seq<u8>;

/// The MD5 digest of a byte string.
pub uninterp spec fn md5_of(data: Seq<u8>) -> Seq<u8>;

/// `chrono::NaiveDateTime::parse_from_str(text, fmt)`, read as UTC: the
/// whole seconds since the Unix epoch and the sub-second nanoseconds, or
/// `None` where the text does not match the format.
pub uninterp spec fn naive_utc_parse(text: Seq<char>, fmt: Seq<char>) -> Option<(int, int)>;

/// `chrono::DateTime::<Utc>::format(fmt)` rendered as a `String`, for the
/// instant `secs` seconds and `nanos` nanoseconds after the Unix epoch.
pub uninterp spec fn utc_format(secs: int, nanos: int, fmt: Seq<char>) -> Seq<char>;

/// The path of the URL `url::Url::parse` reads `text` as, or none where it
/// does not parse.
pub uninterp spec fn parsed_url_path(text: Seq<char>) -> Option<Seq<char>>;

/// `str::to_lowercase`: the Unicode lower-case mapping of a text.
pub uninterp spec fn unicode_lower(text: Seq<char>) -> Seq<char>;

/// The media type `mime_guess` gives a path by its extension, rendered.
pub uninterp spec fn guessed_mime(path: Seq<char>) -> Seq<char>;

/// The first character of `char::to_uppercase`: the Unicode upper-case
/// mapping of a character, cut to one character.
pub uninterp spec fn upper_first_of(c: char) -> char;

/// `char::is_alphabetic`: whether a character has the Unicode `Alphabetic`
/// property.
pub uninterp spec fn alphabetic(c: char) -> bool;

/// `sha2::Sha256::digest`: claims the 32-byte digest named `sha256_of`.
#[verifier::external_body]
pub(crate) fn sha256(data: &[u8]) -> (res: Vec<u8>)
    ensures
        res@ == sha256_of(data@),
        res@.len() == 32,
{
    sha2::Sha256::digest(data).to_vec()
}

/// `hmac::Hmac<Sha256>`: keyed with `key` (any length is accepted, so the
/// `expect` never fires), fed `data`, finalized. Claims the 32-byte MAC
/// named `hmac_sha256_of`.
#[verifier::external_body]
pub(crate) fn hmac_sha256(key: &[u8], data: &[u8]) -> (res: Vec<u8>)
    ensures
        res@ == hmac_sha256_of(key@, data@),
        res@.len() == 32,
{
    let mut mac = hmac::Hmac::<sha2::Sha256>::new_from_slice(key).expect("HMAC accepts any key length");
    mac.update(data);
    mac.finalize().into_bytes().to_vec()
}

/// `md5::compute`: claims the 16-byte digest named `md5_of`.
#[verifier::external_body]
pub(crate) fn md5_digest(data: &[u8]) -> (res: Vec<u8>)
    ensures
        res@ == md5_of(data@),
        res@.len() == 16,
{
    md5::compute(data).0.to_vec()
}

/// `hex::encode`: claims two lower-case hex digits per byte, high nibble
/// first.
#[verifier::external_body]
pub(crate) fn hex_encode(data: &[u8]) -> (res: String)
    ensures
        res@ == hex_lower(data@),
{
    hex::encode(data)
}

/// `percent_encoding::percent_decode_str`, collected: claims that `%`
/// followed by two hex digits becomes the byte they spell and every other
/// byte is kept.
#[verifier::external_body]
pub(crate) fn percent_decode_str(s: &str) -> (res: Vec<u8>)
    ensures
        res@ == pct_decode(encode_utf8(s@)),
{
    percent_encoding::percent_decode_str(s).collect()
}

/// `String::from_utf8_lossy`: claims the result named `utf8_lossy`, which
/// for valid UTF-8 is the decoded text itself.
#[verifier::external_body]
pub(crate) fn from_utf8_lossy(b: &[u8]) -> (res: String)
    ensures
        res@ == utf8_lossy(b@),
        valid_utf8(b@) ==> res@ == decode_utf8(b@),
{
    String::from_utf8_lossy(b).into_owned()
}

/// `String::from_utf8`: claims `Some` exactly for valid UTF-8, holding the
/// decoded text.
#[verifier::external_body]
pub(crate) fn from_utf8(b: Vec<u8>) -> (res: Option<String>)
    ensures
        res is Some <==> valid_utf8(b@),
        res matches Some(s) ==> s@ == decode_utf8(b@),
{
    String::from_utf8(b).ok()
}

/// `chrono::NaiveDateTime::parse_from_str` followed by reading the result as
/// UTC seconds and sub-second nanoseconds: claims the result named
/// `naive_utc_parse`.
#[verifier::external_body]
pub(crate) fn parse_naive_utc(text: &str, fmt: &str) -> (res: Option<(i64, u32)>)
    ensures
        res matches Some(v) ==> naive_utc_parse(text@, fmt@) == Some((v.0 as int, v.1 as int)),
        res is None ==> naive_utc_parse(text@, fmt@) is None,
{
    chrono::NaiveDateTime::parse_from_str(text, fmt).ok().map(
        |t| (t.and_utc().timestamp(), t.and_utc().timestamp_subsec_nanos()),
    )
}

/// `chrono::Utc::now()` as whole seconds since the epoch and sub-second
/// nanoseconds. The clock's reading is not stated.
#[verifier::external_body]
pub(crate) fn utc_now() -> (res: (i64, u32)) {
    let now = chrono::Utc::now();
    (now.timestamp(), now.timestamp_subsec_nanos())
}

/// `chrono::DateTime::<Utc>::from_timestamp` then `format(fmt)`, rendered:
/// claims the text named `utc_format`. The instant is within chrono's range
/// (years -262143 to 262142) and the format is one of the crate's two, whose
/// specifiers are all valid, so the rendering does not fail.
#[verifier::external_body]
pub(crate) fn format_utc(secs: i64, nanos: u32, fmt: &str) -> (res: String)
    requires
        -crate::s3::MAX_TIMESTAMP_SECS <= secs <= crate::s3::MAX_TIMESTAMP_SECS,
        nanos < 1_000_000_000,
        fmt@ == crate::s3::ISO8601_FORMAT@ || fmt@ == crate::s3::HTTP_DATE_FORMAT@,
    ensures
        res@ == utc_format(secs as int, nanos as int, fmt@),
{
    match chrono::DateTime::<chrono::Utc>::from_timestamp(secs, nanos) {
        Some(t) => t.format(fmt).to_string(),
        None => String::new(),
    }
}

/// `reqwest::Url::parse` (the `url` crate), then `Url::path`: claims the
/// result named `parsed_url_path`.
#[verifier::external_body]
pub(crate) fn url_path(text: &str) -> (res: Option<String>)
    ensures
        opt_chars(res) == parsed_url_path(text@),
{
    reqwest::Url::parse(text).ok().map(|u| u.path().to_string())
}

/// `str::to_lowercase`: claims the text named `unicode_lower`.
#[verifier::external_body]
pub(crate) fn to_lowercase(text: &str) -> (res: String)
    ensures
        res@ == unicode_lower(text@),
{
    text.to_lowercase()
}

/// `sha256::digest` of a text: claims the lower-case hex of the SHA-256 of
/// its UTF-8 bytes (the crate hex-encodes `sha2`'s digest).
#[verifier::external_body]
pub(crate) fn sha256_hex_of_text(text: &str) -> (res: String)
    ensures
        res@ == hex_lower(sha256_of(encode_utf8(text@))),
{
    sha256::digest(text)
}

/// `mime_guess::from_path(path).first_or_octet_stream()`, rendered: claims
/// the text named `guessed_mime`.
#[verifier::external_body]
pub(crate) fn guess_mime(path: &str) -> (res: String)
    ensures
        res@ == guessed_mime(path@),
{
    mime_guess::from_path(path).first_or_octet_stream().to_string()
}

/// `char::to_uppercase`, first character (the mapping is never empty, so
/// the fallback to `c` is not taken): claims the character named
/// `upper_first_of`.
#[verifier::external_body]
pub(crate) fn upper_first(c: char) -> (res: char)
    ensures
        res == upper_first_of(c),
{
    c.to_uppercase().next().unwrap_or(c)
}

/// `char::is_alphabetic`: claims the answer named `alphabetic`.
#[verifier::external_body]
pub(crate) fn is_alphabetic(c: char) -> (res: bool)
    ensures
        res == alphabetic(c),
{
    c.is_alphabetic()
}

} // verus!
