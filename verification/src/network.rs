//! Downloading remote tracks into the local cache: which URLs are remote,
//! the file extension of a media type, and the cache file of a URL.
use vstd::prelude::*;
use vstd::utf8::encode_utf8;

use crate::codec::hex_lower;
use crate::codec::lower_hex;
use crate::outside::md5_digest;
use crate::outside::md5_of;
use crate::text::chars_eq;
use crate::text::chars_of;
use crate::text::extend_chars;
use crate::text::starts_with;
use crate::text::string_of;

verus! {

/// A media type with no known audio file extension.
pub struct UnsupportedMime {
    pub mime: String,
}

impl UnsupportedMime {
    /// The description of the error.
    pub fn message(&self) -> (res: String)
        ensures
            res@ == "Unsupported mime type: "@ + self.mime@,
    {
        let mut out = chars_of("Unsupported mime type: ");
        extend_chars(&mut out, &chars_of(self.mime.as_str()));
        string_of(&out)
    }
}

/// The file extension of an audio media type.
pub open spec fn extension_of(mime: Seq<char>) -> Option<Seq<char>> {
    if mime == "audio/mpeg"@ {
        Some("mp3"@)
    } else if mime == "audio/ogg"@ {
        Some("ogg"@)
    } else if mime == "audio/flac"@ {
        Some("flac"@)
    } else if mime == "audio/x-m4a"@ {
        Some("m4a"@)
    } else if mime == "audio/aac"@ {
        Some("aac"@)
    } else if mime == "video/mp4"@ {
        Some("mp4"@)
    } else if mime == "audio/wav"@ || mime == "audio/x-wav"@ {
        Some("wav"@)
    } else if mime == "audio/x-wavpack"@ {
        Some("wv"@)
    } else if mime == "audio/x-musepack"@ {
        Some("mpc"@)
    } else if mime == "audio/aiff"@ || mime == "audio/x-aiff"@ {
        Some("aiff"@)
    } else if mime == "audio/ac3"@ || mime == "audio/vnd.dolby.dd-raw"@ {
        Some("ac3"@)
    } else if mime == "audio/opus"@ {
        Some("opus"@)
    } else if mime == "audio/x-speex"@ {
        Some("spx"@)
    } else if mime == "audio/prs.sid"@ {
        Some("sid"@)
    } else if mime == "audio/ape"@ || mime == "audio/x-monkeys-audio"@ {
        Some("ape"@)
    } else if mime == "audio/x-ms-wma"@ {
        Some("wma"@)
    } else {
        None
    }
}

/// The file extension of an audio media type, or the error naming it.
pub fn get_file_extension(mime: &str) -> (res: Result<String, UnsupportedMime>)
    ensures
        match res {
            Ok(e) => extension_of(mime@) == Some(e@),
            Err(u) => extension_of(mime@) is None && u.mime@ == mime@,
        },
{
    let m = chars_of(mime);
    let e = if chars_eq(&m, &chars_of("audio/mpeg")) {
        "mp3"
    } else if chars_eq(&m, &chars_of("audio/ogg")) {
        "ogg"
    } else if chars_eq(&m, &chars_of("audio/flac")) {
        "flac"
    } else if chars_eq(&m, &chars_of("audio/x-m4a")) {
        "m4a"
    } else if chars_eq(&m, &chars_of("audio/aac")) {
        "aac"
    } else if chars_eq(&m, &chars_of("video/mp4")) {
        "mp4"
    } else if chars_eq(&m, &chars_of("audio/wav")) || chars_eq(&m, &chars_of("audio/x-wav")) {
        "wav"
    } else if chars_eq(&m, &chars_of("audio/x-wavpack")) {
        "wv"
    } else if chars_eq(&m, &chars_of("audio/x-musepack")) {
        "mpc"
    } else if chars_eq(&m, &chars_of("audio/aiff")) || chars_eq(&m, &chars_of("audio/x-aiff")) {
        "aiff"
    } else if chars_eq(&m, &chars_of("audio/ac3")) || chars_eq(
        &m,
        &chars_of("audio/vnd.dolby.dd-raw"),
    ) {
        "ac3"
    } else if chars_eq(&m, &chars_of("audio/opus")) {
        "opus"
    } else if chars_eq(&m, &chars_of("audio/x-speex")) {
        "spx"
    } else if chars_eq(&m, &chars_of("audio/prs.sid")) {
        "sid"
    } else if chars_eq(&m, &chars_of("audio/ape")) || chars_eq(
        &m,
        &chars_of("audio/x-monkeys-audio"),
    ) {
        "ape"
    } else if chars_eq(&m, &chars_of("audio/x-ms-wma")) {
        "wma"
    } else {
        return Err(UnsupportedMime { mime: string_of(&m) });
    };
    Ok(string_of(&chars_of(e)))
}

/// Whether a track location is downloaded first: it starts with `http`.
pub fn is_remote(url: &str) -> (res: bool)
    ensures
        res == "http"@.is_prefix_of(url@),
{
    starts_with(&chars_of(url), &chars_of("http"))
}

/// The download cache under a home directory.
pub fn cache_dir(home: &str) -> (res: String)
    ensures
        res@ == home@ + "/.cache/rockbox"@,
{
    let mut out = chars_of(home);
    extend_chars(&mut out, &chars_of("/.cache/rockbox"));
    string_of(&out)
}

/// The cache file of a downloaded URL: named by the MD5 of the URL in hex,
/// with the extension of the media type the server gave.
pub fn cache_file_path(cache_dir: &str, url: &str, mime: &str) -> (res: Result<String, UnsupportedMime>)
    ensures
        match res {
            Ok(p) => extension_of(mime@) matches Some(e) && p@ == cache_dir@ + seq!['/'] + hex_lower(
                md5_of(encode_utf8(url@)),
            ) + seq!['.'] + e,
            Err(u) => extension_of(mime@) is None && u.mime@ == mime@,
        },
{
    let ext = match get_file_extension(mime) {
        Ok(e) => e,
        Err(u) => return Err(u),
    };
    let hash = lower_hex(&md5_digest(url.as_bytes()));
    let mut out = chars_of(cache_dir);
    out.push('/');
    extend_chars(&mut out, &hash);
    out.push('.');
    extend_chars(&mut out, &chars_of(ext.as_str()));
    Ok(string_of(&out))
}

} // verus!
