//! The S3-compatible gateway to the music directory: the bucket check, the
//! signature check of each request and the error it answers with, the
//! mapping of object keys to files, which keys are audio, the ListObjectsV2
//! listing, conditional GETs, and the XML documents it sends.
use vstd::prelude::*;

use crate::codec::dec;
use crate::codec::dec_chars;
use crate::codec::hex_lower;
use crate::codec::parse_unsigned;
use crate::codec::parse_unsigned_chars;
use crate::ordered::pairs_view;
use crate::ordered::strings_view;
use crate::outside::format_utc;
use crate::outside::hex_encode;
use crate::outside::sha256;
use crate::outside::sha256_of;
use crate::outside::utc_format;
use crate::sigv4::error_message;
use crate::sigv4::query_pairs;
use crate::sigv4::query_params;
use crate::sigv4::verify;
use crate::sigv4::verify_spec;
use crate::sigv4::AuthInput;
use crate::sigv4::Header;
use crate::sigv4::SigV4Error;
use crate::text::chars_eq;
use crate::text::chars_of;
use crate::text::contains_char;
use crate::text::opt_chars;
use crate::text::opt_str_chars;
use crate::text::extend_chars;
use crate::text::find_char_exec;
use crate::text::find_last_char;
use crate::text::find_last_char_exec;
use crate::text::find_sub;
use crate::text::find_sub_exec;
use crate::text::lemma_split_nonempty;
use crate::text::lemma_split_pieces_lack_sep;
use crate::text::lower;
use crate::text::lower_chars;
use crate::text::slice_of;
use crate::text::split;
use crate::text::split_chars;
use crate::text::starts_with;
use crate::text::string_of;
use crate::xml::error_document;
use crate::xml::escape;
use crate::xml::escape_chars;
use crate::xml::XML_DECL;

verus! {

/// The request id every error document carries.
pub const REQUEST_ID: &'static str = "rockbox-s3";

/// `chrono` format of the ISO-8601 timestamps of listings.
pub const ISO8601_FORMAT: &'static str = "%Y-%m-%dT%H:%M:%S%.3fZ";

/// `chrono` format of HTTP dates (`Last-Modified`).
pub const HTTP_DATE_FORMAT: &'static str = "%a, %d %b %Y %H:%M:%S GMT";

/// The furthest instant from the epoch, in seconds either way, that the
/// date formatting accepts (about 253,000 years).
pub const MAX_TIMESTAMP_SECS: i64 = 8000000000000;

/// What the gateway serves and how it checks requests.
pub struct S3State {
    /// The directory whose files are the bucket's objects.
    pub music_dir: String,
    pub access_key: String,
    pub secret_key: String,
    /// The one bucket there is.
    pub bucket: String,
    /// The region requests are signed for.
    pub region: String,
}

/// An error answer: HTTP status, S3 error code, message and resource.
pub struct S3Error {
    pub status: u16,
    pub code: String,
    pub message: String,
    pub resource: String,
}

impl View for S3Error {
    type V = (u16, Seq<char>, Seq<char>, Seq<char>);

    open spec fn view(&self) -> (u16, Seq<char>, Seq<char>, Seq<char>) {
        (self.status, self.code@, self.message@, self.resource@)
    }
}

/// What a stored object's file gives a listing: its size and its
/// modification time already rendered in ISO-8601.
pub struct ObjectMeta {
    pub size: u64,
    pub last_modified: String,
}

/// What the file of an object is, as its metadata shows it.
pub struct FileInfo {
    pub is_file: bool,
    pub len: u64,
    /// Modification time: seconds since the epoch and nanoseconds.
    pub modified_secs: i64,
    pub modified_nanos: u32,
}

// ── Spec model ──────────────────────────────────────────────────────────────

/// The error answer a refused signature gets.
pub open spec fn auth_failure(e: SigV4Error, resource: Seq<char>) -> (u16, Seq<char>, Seq<char>, Seq<char>) {
    match e {
        SigV4Error::Missing(_) => (403, "AccessDenied"@, "Authorization header missing"@, resource),
        SigV4Error::AccessKeyMismatch => (
            403,
            "InvalidAccessKeyId"@,
            "The AWS access key id provided does not exist"@,
            resource,
        ),
        SigV4Error::SkewTooLarge => (
            403,
            "RequestTimeTooSkewed"@,
            "Request timestamp is outside the acceptable window"@,
            resource,
        ),
        SigV4Error::UnsupportedPayload => (
            501,
            "NotImplemented"@,
            "STREAMING-AWS4-HMAC-SHA256-PAYLOAD is not supported; use UNSIGNED-PAYLOAD or sign the full body"@,
            resource,
        ),
        _ => (403, "SignatureDoesNotMatch"@, error_message(e), resource),
    }
}

/// The segments of a `/`-separated key that name something: not empty and
/// not `.` (what `Path::components` keeps of them, leading `.` aside).
pub open spec fn named_segments(segs: Seq<Seq<char>>) -> Seq<Seq<char>>
    decreases segs.len(),
{
    if segs.len() == 0 {
        Seq::<Seq<char>>::empty()
    } else {
        let r = named_segments(segs.drop_last());
        if segs.last().len() == 0 || segs.last() == "."@ {
            r
        } else {
            r.push(segs.last())
        }
    }
}

/// `PathBuf::push` of a plain name: a `/` goes between unless the path is
/// empty or ends in one.
pub open spec fn path_push(p: Seq<char>, name: Seq<char>) -> Seq<char> {
    if p.len() == 0 || p.last() == '/' {
        p + name
    } else {
        p + seq!['/'] + name
    }
}

/// `dir` with each of `names` pushed in turn.
pub open spec fn path_push_all(dir: Seq<char>, names: Seq<Seq<char>>) -> Seq<char>
    decreases names.len(),
{
    if names.len() == 0 {
        dir
    } else {
        path_push(path_push_all(dir, names.drop_last()), names.last())
    }
}

/// Whether a segment other than the last is empty (the key holds `//`, or
/// starts with `/`).
pub open spec fn has_empty_inner_segment(segs: Seq<Seq<char>>) -> bool {
    exists|j: int| 0 <= j < segs.len() - 1 && (#[trigger] segs[j]).len() == 0
}

/// The file of key `key` under `dir`: none for an empty key, one holding a
/// NUL, an absolute one, one holding `//`, one starting with a `.` segment
/// or holding a `..` segment; otherwise `dir` with the named segments of
/// the key pushed.
pub open spec fn resolve_key_spec(dir: Seq<char>, key: Seq<char>) -> Option<Seq<char>> {
    let segs = split(key, '/');
    if key.len() == 0 || key.contains('\0') || key[0] == '/' {
        None
    } else if segs[0] == "."@ || segs.contains(".."@) || has_empty_inner_segment(segs) {
        None
    } else {
        Some(path_push_all(dir, named_segments(segs)))
    }
}

/// `Path::file_name` of a key: its last named segment, unless that is `..`.
pub open spec fn key_file_name(key: Seq<char>) -> Option<Seq<char>> {
    let names = named_segments(split(key, '/'));
    if names.len() == 0 || names.last() == ".."@ {
        None
    } else {
        Some(names.last())
    }
}

/// `Path::extension` of a file name: what follows its last `.`, unless that
/// `.` starts the name.
pub open spec fn name_extension(name: Seq<char>) -> Option<Seq<char>> {
    match find_last_char(name, '.') {
        Some(i) => if i == 0 {
            None
        } else {
            Some(name.skip(i + 1 as int))
        },
        None => None,
    }
}

/// The lower-cased extension of a key.
pub open spec fn key_extension(key: Seq<char>) -> Option<Seq<char>> {
    match key_file_name(key) {
        Some(n) => match name_extension(n) {
            Some(e) => Some(lower(e)),
            None => None,
        },
        None => None,
    }
}

/// The extensions of audio files.
pub open spec fn is_audio_extension(e: Seq<char>) -> bool {
    ||| e == "mp3"@
    ||| e == "ogg"@
    ||| e == "flac"@
    ||| e == "m4a"@
    ||| e == "aac"@
    ||| e == "mp4"@
    ||| e == "alac"@
    ||| e == "wav"@
    ||| e == "wv"@
    ||| e == "mpc"@
    ||| e == "aiff"@
    ||| e == "ac3"@
    ||| e == "opus"@
    ||| e == "spx"@
    ||| e == "sid"@
    ||| e == "ape"@
    ||| e == "wma"@
}

/// Whether a key names an audio file.
pub open spec fn is_audio_key_spec(key: Seq<char>) -> bool {
    match key_extension(key) {
        Some(e) => is_audio_extension(e),
        None => false,
    }
}

/// The `Content-Type` of an object, by its extension.
pub open spec fn content_type_spec(key: Seq<char>) -> Seq<char> {
    match key_extension(key) {
        Some(e) => if e == "mp3"@ {
            "audio/mpeg"@
        } else if e == "flac"@ {
            "audio/flac"@
        } else if e == "ogg"@ || e == "opus"@ {
            "audio/ogg"@
        } else if e == "m4a"@ || e == "aac"@ || e == "mp4"@ || e == "alac"@ {
            "audio/mp4"@
        } else if e == "wav"@ {
            "audio/wav"@
        } else if e == "wma"@ {
            "audio/x-ms-wma"@
        } else if e == "ape"@ {
            "audio/x-ape"@
        } else if e == "aiff"@ || e == "aif"@ {
            "audio/aiff"@
        } else {
            "application/octet-stream"@
        },
        None => "application/octet-stream"@,
    }
}

/// The quoted ETag of an object: the first 16 bytes of its SHA-256 in hex.
pub open spec fn etag_spec(body: Seq<u8>) -> Seq<char> {
    seq!['"'] + hex_lower(sha256_of(body).take(16)) + seq!['"']
}

/// The value of the last query parameter called `name`.
pub open spec fn last_value(pairs: Seq<(Seq<char>, Seq<char>)>, name: Seq<char>) -> Option<Seq<char>>
    decreases pairs.len(),
{
    if pairs.len() == 0 {
        None
    } else if pairs.last().0 == name {
        Some(pairs.last().1)
    } else {
        last_value(pairs.drop_last(), name)
    }
}

/// The decoded parameters of a query string.
pub open spec fn query_map(query: Seq<char>) -> Seq<(Seq<char>, Seq<char>)> {
    query_pairs(split(query, '&'))
}

/// The `max-keys` of a listing: the parameter where it reads as a `usize`,
/// capped at 1000; 1000 otherwise.
pub open spec fn max_keys_spec(query: Seq<char>) -> nat {
    match last_value(query_map(query), "max-keys"@) {
        Some(v) => match parse_unsigned(v, usize::MAX as nat) {
            Some(n) => if n < 1000 {
                n
            } else {
                1000
            },
            None => 1000,
        },
        None => 1000,
    }
}

/// The `prefix` of a listing (empty when absent).
pub open spec fn prefix_spec(query: Seq<char>) -> Seq<char> {
    match last_value(query_map(query), "prefix"@) {
        Some(p) => p,
        None => Seq::<char>::empty(),
    }
}

/// The `delimiter` of a listing.
pub open spec fn delimiter_spec(query: Seq<char>) -> Option<Seq<char>> {
    last_value(query_map(query), "delimiter"@)
}

/// The `<Contents>` element of one listed object.
pub open spec fn contents_xml(key: Seq<char>, m: ObjectMeta) -> Seq<char> {
    "<Contents><Key>"@ + escape(key) + "</Key><LastModified>"@ + m.last_modified@
        + "</LastModified><Size>"@ + dec(m.size as nat)
        + "</Size><StorageClass>STANDARD</StorageClass></Contents>"@
}

/// The `<CommonPrefixes>` element of one rolled-up prefix.
pub open spec fn prefix_xml(cp: Seq<char>) -> Seq<char> {
    "<CommonPrefixes><Prefix>"@ + escape(cp) + "</Prefix></CommonPrefixes>"@
}

/// A listing in progress: the common prefixes so far, the `<Contents>`
/// elements so far, how many entries were emitted, and whether the listing
/// was cut at `max-keys`.
pub struct Listed {
    pub prefixes: Seq<Seq<char>>,
    pub contents: Seq<Seq<char>>,
    pub emitted: nat,
    pub truncated: bool,
}

/// One key of the sorted key list taken into a listing. Keys outside the
/// prefix are passed over; with a delimiter after the prefix, the key rolls
/// up into its common prefix (emitted once); otherwise it is listed with its
/// metadata, and passed over where there is none. Once `max` entries are
/// emitted, the next entry marks the listing truncated and ends it.
pub open spec fn list_step(
    acc: Listed,
    key: Seq<char>,
    meta: Option<ObjectMeta>,
    prefix: Seq<char>,
    delim: Option<Seq<char>>,
    max: nat,
) -> Listed {
    if acc.truncated || !prefix.is_prefix_of(key) {
        acc
    } else {
        let rest = key.skip(prefix.len() as int);
        let at = match delim {
            Some(d) => find_sub(rest, d),
            None => None,
        };
        match at {
            Some(idx) => {
                let cp = prefix + rest.take(idx as int) + delim->0;
                if acc.prefixes.contains(cp) {
                    acc
                } else if acc.emitted >= max {
                    Listed { truncated: true, ..acc }
                } else {
                    Listed { prefixes: acc.prefixes.push(cp), emitted: acc.emitted + 1, ..acc }
                }
            },
            None => if acc.emitted >= max {
                Listed { truncated: true, ..acc }
            } else {
                match meta {
                    Some(m) => Listed {
                        contents: acc.contents.push(contents_xml(key, m)),
                        emitted: acc.emitted + 1,
                        ..acc
                    },
                    None => acc,
                }
            },
        }
    }
}

/// The listing of `keys`, with `metas` their metadata, in order.
pub open spec fn list_scan(
    keys: Seq<Seq<char>>,
    metas: Seq<Option<ObjectMeta>>,
    prefix: Seq<char>,
    delim: Option<Seq<char>>,
    max: nat,
) -> Listed
    decreases keys.len(),
{
    if keys.len() == 0 {
        Listed {
            prefixes: Seq::<Seq<char>>::empty(),
            contents: Seq::<Seq<char>>::empty(),
            emitted: 0,
            truncated: false,
        }
    } else {
        list_step(
            list_scan(keys.drop_last(), metas.drop_last(), prefix, delim, max),
            keys.last(),
            metas.last(),
            prefix,
            delim,
            max,
        )
    }
}

/// The concatenation of `parts`.
pub open spec fn concat(parts: Seq<Seq<char>>) -> Seq<char>
    decreases parts.len(),
{
    if parts.len() == 0 {
        Seq::<char>::empty()
    } else {
        concat(parts.drop_last()) + parts.last()
    }
}

/// The `ListBucketResult` document of a listing.
pub open spec fn listing_xml(bucket: Seq<char>, prefix: Seq<char>, delim: Option<Seq<char>>, max: nat, l: Listed) -> Seq<char> {
    XML_DECL@ + "<ListBucketResult xmlns=\"http://s3.amazonaws.com/doc/2006-03-01/\"><Name>"@
        + escape(bucket) + "</Name><Prefix>"@ + escape(prefix) + "</Prefix><KeyCount>"@ + dec(
        l.contents.len() + l.prefixes.len(),
    ) + "</KeyCount><MaxKeys>"@ + dec(max) + "</MaxKeys><IsTruncated>"@ + (if l.truncated {
        "true"@
    } else {
        "false"@
    }) + "</IsTruncated>"@ + (match delim {
        Some(d) => "<Delimiter>"@ + escape(d) + "</Delimiter>"@,
        None => Seq::<char>::empty(),
    }) + concat(l.contents) + concat(l.prefixes.map_values(|cp: Seq<char>| prefix_xml(cp)))
        + "</ListBucketResult>"@
}

/// The answer to ListObjectsV2 with query `query` over the sorted `keys`.
pub open spec fn list_objects_spec(
    bucket: Seq<char>,
    query: Seq<char>,
    keys: Seq<Seq<char>>,
    metas: Seq<Option<ObjectMeta>>,
) -> Seq<char> {
    let prefix = prefix_spec(query);
    let delim = delimiter_spec(query);
    let max = max_keys_spec(query);
    listing_xml(bucket, prefix, delim, max, list_scan(keys, metas, prefix, delim, max))
}

/// The `ListAllMyBucketsResult` document naming the one bucket.
pub open spec fn buckets_xml(bucket: Seq<char>, created: Seq<char>) -> Seq<char> {
    XML_DECL@ + "<ListAllMyBucketsResult xmlns=\"http://s3.amazonaws.com/doc/2006-03-01/\"><Owner><ID>rockboxd</ID><DisplayName>rockboxd</DisplayName></Owner><Buckets><Bucket><Name>"@
        + escape(bucket) + "</Name><CreationDate>"@ + created
        + "</CreationDate></Bucket></Buckets></ListAllMyBucketsResult>"@
}

// ── Errors, the bucket, the signature ───────────────────────────────────────

/// An error answer.
fn s3_error(status: u16, code: &str, message: &str, resource: &str) -> (res: S3Error)
    ensures
        res@ == (status, code@, message@, resource@),
{
    S3Error {
        status,
        code: string_of(&chars_of(code)),
        message: string_of(&chars_of(message)),
        resource: string_of(&chars_of(resource)),
    }
}

impl S3Error {
    /// The XML `<Error>` document of the answer.
    pub fn body(&self) -> (res: String)
        ensures
            res@ == error_document(self.code@, self.message@, self.resource@, REQUEST_ID@),
    {
        crate::xml::error(self.code.as_str(), self.message.as_str(), self.resource.as_str(), REQUEST_ID)
    }
}

/// The answer to a request whose signature does not match: `403
/// SignatureDoesNotMatch` with `detail` as the message.
pub fn unauthorised(resource: &str, detail: &str) -> (res: S3Error)
    ensures
        res@ == (403u16, "SignatureDoesNotMatch"@, detail@, resource@),
{
    s3_error(403, "SignatureDoesNotMatch", detail, resource)
}

/// The answer to a request whose signature check failed with `e`.
pub fn auth_error(e: &SigV4Error, resource: &str) -> (res: S3Error)
    ensures
        res@ == auth_failure(*e, resource@),
{
    match e {
        SigV4Error::Missing(_) => s3_error(403, "AccessDenied", "Authorization header missing", resource),
        SigV4Error::AccessKeyMismatch => s3_error(
            403,
            "InvalidAccessKeyId",
            "The AWS access key id provided does not exist",
            resource,
        ),
        SigV4Error::SkewTooLarge => s3_error(
            403,
            "RequestTimeTooSkewed",
            "Request timestamp is outside the acceptable window",
            resource,
        ),
        SigV4Error::UnsupportedPayload => s3_error(
            501,
            "NotImplemented",
            "STREAMING-AWS4-HMAC-SHA256-PAYLOAD is not supported; use UNSIGNED-PAYLOAD or sign the full body",
            resource,
        ),
        _ => {
            let detail = e.message();
            unauthorised(resource, detail.as_str())
        },
    }
}

/// Whether the request names the gateway's bucket: `404 NoSuchBucket`
/// otherwise.
pub fn check_bucket(state: &S3State, bucket: &str, resource: &str) -> (res: Result<(), S3Error>)
    ensures
        res is Ok <==> bucket@ == state.bucket@,
        res matches Err(e) ==> e@ == (
            404u16,
            "NoSuchBucket"@,
            "The specified bucket does not exist"@,
            resource@,
        ),
{
    if !chars_eq(&chars_of(bucket), &chars_of(state.bucket.as_str())) {
        return Err(
            s3_error(404, "NoSuchBucket", "The specified bucket does not exist", resource),
        );
    }
    Ok(())
}

/// Checks the signature of a request against the clock: whatever the
/// clock reads, the outcome is the one [`verify_spec`] gives for some reading
/// of it, a refusal answered as [`auth_failure`] says.
pub fn authorize(input: &AuthInput, resource: &str) -> (res: Result<(), S3Error>)
    ensures
        exists|s: i64, n: u32|
            match #[trigger] verify_spec(*input, s as int, n as int) {
                Ok(()) => res is Ok,
                Err(e) => res matches Err(x) && x@ == auth_failure(e, resource@),
            },
{
    match verify(input) {
        Ok(()) => Ok(()),
        Err(e) => Err(auth_error(&e, resource)),
    }
}

// ── Keys and files ──────────────────────────────────────────────────────────

proof fn lemma_named_segments_push(segs: Seq<Seq<char>>, x: Seq<char>)
    ensures
        named_segments(segs.push(x)) == if x.len() == 0 || x == "."@ {
            named_segments(segs)
        } else {
            named_segments(segs).push(x)
        },
{
    assert(segs.push(x).drop_last() =~= segs);
}

/// The named segments of a split key ([`named_segments`]).
fn named_segments_exec(segs: &Vec<Vec<char>>) -> (res: Vec<Vec<char>>)
    ensures
        res@.map_values(|v: Vec<char>| v@) == named_segments(segs@.map_values(|v: Vec<char>| v@)),
{
    let ghost sv = segs@.map_values(|v: Vec<char>| v@);
    let dot = chars_of(".");
    let mut out: Vec<Vec<char>> = Vec::new();
    let mut i: usize = 0;
    assert(sv.take(0) =~= Seq::<Seq<char>>::empty());
    while i < segs.len()
        invariant
            i <= segs.len(),
            sv == segs@.map_values(|v: Vec<char>| v@),
            dot@ == "."@,
            out@.map_values(|v: Vec<char>| v@) == named_segments(sv.take(i as int)),
        decreases segs.len() - i,
    {
        proof {
            lemma_named_segments_push(sv.take(i as int), sv[i as int]);
            assert(sv.take(i + 1) =~= sv.take(i as int).push(sv[i as int]));
        }
        let seg = &segs[i];
        if !(seg.len() == 0 || chars_eq(seg, &dot)) {
            let ghost before = out@.map_values(|v: Vec<char>| v@);
            assert(seg@.subrange(0, seg@.len() as int) =~= seg@);
            assert(sv[i as int] == seg@);
            out.push(slice_of(seg, 0, seg.len()));
            assert(out@.map_values(|v: Vec<char>| v@) =~= before.push(sv[i as int]));
        }
        i += 1;
    }
    assert(sv.take(segs.len() as int) =~= sv);
    out
}

/// The split of a key into its `/`-separated segments.
fn key_segments(key: &[char]) -> (res: Vec<Vec<char>>)
    ensures
        res@.map_values(|v: Vec<char>| v@) == split(key@, '/'),
        res@.len() >= 1,
{
    let segs = split_chars(key, '/');
    proof {
        lemma_split_nonempty(key@, '/');
    }
    assert(segs@.map_values(|v: Vec<char>| v@) =~= split(key@, '/'));
    segs
}

/// The file of object key `key` under `music_dir`, or none where the key
/// could leave it or is ill-formed (empty, NUL, absolute, `//`, a leading
/// `.` segment, a `..` segment).
pub fn resolve_key(music_dir: &str, key: &str) -> (res: Option<String>)
    ensures
        opt_chars(res) == resolve_key_spec(music_dir@, key@),
{
    let k = chars_of(key);
    if k.len() == 0 || contains_char(&k, '\0') || k[0] == '/' {
        return None;
    }
    let segs = key_segments(&k);
    let ghost sv = split(key@, '/');
    let dot = chars_of(".");
    let dotdot = chars_of("..");
    assert(sv[0] == segs@[0]@);
    if chars_eq(&segs[0], &dot) {
        return None;
    }
    let mut i: usize = 0;
    while i < segs.len()
        invariant
            i <= segs.len(),
            sv == segs@.map_values(|v: Vec<char>| v@),
            dotdot@ == ".."@,
            forall|j: int| 0 <= j < i ==> sv[j] != ".."@,
            forall|j: int| 0 <= j < i && j < sv.len() - 1 ==> (#[trigger] sv[j]).len() > 0,
            sv == split(key@, '/'),
            key@.len() > 0,
            !key@.contains('\0'),
            key@[0] != '/',
            sv[0] != "."@,
        decreases segs.len() - i,
    {
        if chars_eq(&segs[i], &dotdot) {
            assert(sv[i as int] == ".."@);
            assert(sv.contains(".."@));
            return None;
        }
        if i + 1 < segs.len() && segs[i].len() == 0 {
            assert(sv[i as int].len() == 0);
            assert(has_empty_inner_segment(sv));
            return None;
        }
        i += 1;
    }
    assert(!sv.contains(".."@));
    assert(!has_empty_inner_segment(sv));
    let names = named_segments_exec(&segs);
    let ghost nv = names@.map_values(|v: Vec<char>| v@);
    let mut p = chars_of(music_dir);
    let mut j: usize = 0;
    assert(nv.take(0) =~= Seq::<Seq<char>>::empty());
    while j < names.len()
        invariant
            j <= names.len(),
            nv == names@.map_values(|v: Vec<char>| v@),
            p@ == path_push_all(music_dir@, nv.take(j as int)),
        decreases names.len() - j,
    {
        assert(nv.take(j + 1).drop_last() =~= nv.take(j as int));
        if !(p.len() == 0 || p[p.len() - 1] == '/') {
            p.push('/');
        }
        extend_chars(&mut p, &names[j]);
        j += 1;
    }
    assert(nv.take(names.len() as int) =~= nv);
    Some(string_of(&p))
}

/// The lower-cased extension of a key ([`key_extension`]).
fn key_extension_exec(key: &[char]) -> (res: Option<Vec<char>>)
    ensures
        res matches Some(e) ==> key_extension(key@) == Some(e@),
        res is None ==> key_extension(key@) is None,
{
    let segs = key_segments(key);
    let names = named_segments_exec(&segs);
    let ghost nv = names@.map_values(|v: Vec<char>| v@);
    if names.len() == 0 {
        return None;
    }
    let last = &names[names.len() - 1];
    assert(last@ == nv.last());
    if chars_eq(last, &chars_of("..")) {
        return None;
    }
    match find_last_char_exec(last, '.') {
        Some(i) => {
            assert(i < last.len());
            if i == 0 {
                None
            } else {
                Some(lower_chars(&slice_of(last, i + 1, last.len())))
            }
        },
        None => None,
    }
}

/// Whether `e` is one of the audio extensions.
fn is_audio_extension_exec(e: &[char]) -> (res: bool)
    ensures
        res == is_audio_extension(e@),
{
    chars_eq(e, &chars_of("mp3")) || chars_eq(e, &chars_of("ogg")) || chars_eq(e, &chars_of("flac"))
        || chars_eq(e, &chars_of("m4a")) || chars_eq(e, &chars_of("aac")) || chars_eq(
        e,
        &chars_of("mp4"),
    ) || chars_eq(e, &chars_of("alac")) || chars_eq(e, &chars_of("wav")) || chars_eq(
        e,
        &chars_of("wv"),
    ) || chars_eq(e, &chars_of("mpc")) || chars_eq(e, &chars_of("aiff")) || chars_eq(
        e,
        &chars_of("ac3"),
    ) || chars_eq(e, &chars_of("opus")) || chars_eq(e, &chars_of("spx")) || chars_eq(
        e,
        &chars_of("sid"),
    ) || chars_eq(e, &chars_of("ape")) || chars_eq(e, &chars_of("wma"))
}

/// Whether a key names an audio file, by the extension of its file name.
pub fn is_audio_key(key: &str) -> (res: bool)
    ensures
        res == is_audio_key_spec(key@),
{
    match key_extension_exec(&chars_of(key)) {
        Some(e) => is_audio_extension_exec(&e),
        None => false,
    }
}

/// The `Content-Type` an object is served with.
pub fn content_type_for(key: &str) -> (res: String)
    ensures
        res@ == content_type_spec(key@),
{
    let t = match key_extension_exec(&chars_of(key)) {
        Some(e) => {
            if chars_eq(&e, &chars_of("mp3")) {
                "audio/mpeg"
            } else if chars_eq(&e, &chars_of("flac")) {
                "audio/flac"
            } else if chars_eq(&e, &chars_of("ogg")) || chars_eq(&e, &chars_of("opus")) {
                "audio/ogg"
            } else if chars_eq(&e, &chars_of("m4a")) || chars_eq(&e, &chars_of("aac")) || chars_eq(
                &e,
                &chars_of("mp4"),
            ) || chars_eq(&e, &chars_of("alac")) {
                "audio/mp4"
            } else if chars_eq(&e, &chars_of("wav")) {
                "audio/wav"
            } else if chars_eq(&e, &chars_of("wma")) {
                "audio/x-ms-wma"
            } else if chars_eq(&e, &chars_of("ape")) {
                "audio/x-ape"
            } else if chars_eq(&e, &chars_of("aiff")) || chars_eq(&e, &chars_of("aif")) {
                "audio/aiff"
            } else {
                "application/octet-stream"
            }
        },
        None => "application/octet-stream",
    };
    string_of(&chars_of(t))
}

// ── Digests and dates ───────────────────────────────────────────────────────

/// The ETag of an object's bytes: the first 16 bytes of their SHA-256, in
/// lower-case hex, in double quotes.
pub fn etag_hex(bytes: &[u8]) -> (res: String)
    ensures
        res@ == etag_spec(bytes@),
{
    let h = sha256(bytes);
    let mut head: Vec<u8> = Vec::new();
    let mut i: usize = 0;
    while i < 16
        invariant
            i <= 16,
            h@.len() == 32,
            head@ == h@.take(i as int),
        decreases 16 - i,
    {
        head.push(h[i]);
        assert(h@.take(i + 1) =~= h@.take(i as int).push(h@[i as int]));
        i += 1;
    }
    let hex = hex_encode(&head);
    let mut out: Vec<char> = Vec::new();
    out.push('"');
    extend_chars(&mut out, &chars_of(hex.as_str()));
    out.push('"');
    assert(out@ =~= seq!['"'] + hex_lower(sha256_of(bytes@).take(16)) + seq!['"']);
    string_of(&out)
}

/// The SHA-256 of a request body, in lower-case hex.
pub fn body_sha256_hex(body: &[u8]) -> (res: String)
    ensures
        res@ == hex_lower(sha256_of(body@)),
{
    let h = sha256(body);
    hex_encode(&h)
}

/// The SHA-256 of the empty body, in lower-case hex.
pub fn empty_body_hash() -> (res: String)
    ensures
        res@ == hex_lower(sha256_of(Seq::<u8>::empty())),
{
    let empty: Vec<u8> = Vec::new();
    body_sha256_hex(&empty)
}

/// An instant as ISO-8601 UTC with milliseconds (`2024-01-02T03:04:05.678Z`).
pub fn iso8601(secs: i64, nanos: u32) -> (res: String)
    requires
        -MAX_TIMESTAMP_SECS <= secs <= MAX_TIMESTAMP_SECS,
        nanos < 1_000_000_000,
    ensures
        res@ == utc_format(secs as int, nanos as int, ISO8601_FORMAT@),
{
    format_utc(secs, nanos, ISO8601_FORMAT)
}

/// An instant as an HTTP date (`Tue, 02 Jan 2024 03:04:05 GMT`).
pub fn http_date(secs: i64, nanos: u32) -> (res: String)
    requires
        -MAX_TIMESTAMP_SECS <= secs <= MAX_TIMESTAMP_SECS,
        nanos < 1_000_000_000,
    ensures
        res@ == utc_format(secs as int, nanos as int, HTTP_DATE_FORMAT@),
{
    format_utc(secs, nanos, HTTP_DATE_FORMAT)
}

// ── Listings ────────────────────────────────────────────────────────────────

/// The characters of an optional character vector.
pub open spec fn opt_vec(o: Option<Vec<char>>) -> Option<Seq<char>> {
    match o {
        Some(v) => Some(v@),
        None => None,
    }
}

/// The value of the last parameter called `name` ([`last_value`]).
fn last_value_exec(pairs: &Vec<(Vec<char>, Vec<char>)>, name: &str) -> (res: Option<Vec<char>>)
    ensures
        res matches Some(v) ==> last_value(pairs_view(pairs@), name@) == Some(v@),
        res is None ==> last_value(pairs_view(pairs@), name@) is None,
{
    let ghost pv = pairs_view(pairs@);
    let n = chars_of(name);
    let mut k: usize = pairs.len();
    assert(pv.take(k as int) =~= pv);
    while k > 0
        invariant
            k <= pairs.len(),
            pv == pairs_view(pairs@),
            n@ == name@,
            last_value(pv, name@) == last_value(pv.take(k as int), name@),
        decreases k,
    {
        assert(pv.take(k as int).drop_last() =~= pv.take(k - 1));
        assert(pv.take(k as int).last() == pv[k - 1]);
        if chars_eq(&pairs[k - 1].0, &n) {
            let v = &pairs[k - 1].1;
            assert(v@.subrange(0, v@.len() as int) =~= v@);
            return Some(slice_of(v, 0, v.len()));
        }
        k -= 1;
    }
    None
}

/// Whether `x` is among `v`.
fn contains_text(v: &Vec<Vec<char>>, x: &[char]) -> (res: bool)
    ensures
        res == v@.map_values(|e: Vec<char>| e@).contains(x@),
{
    let ghost vv = v@.map_values(|e: Vec<char>| e@);
    let mut i: usize = 0;
    while i < v.len()
        invariant
            i <= v.len(),
            vv == v@.map_values(|e: Vec<char>| e@),
            forall|j: int| 0 <= j < i ==> vv[j] != x@,
        decreases v.len() - i,
    {
        if chars_eq(&v[i], x) {
            assert(vv[i as int] == x@);
            return true;
        }
        i += 1;
    }
    false
}

/// The concatenation of `parts` ([`concat`]).
fn concat_exec(parts: &Vec<Vec<char>>) -> (res: Vec<char>)
    ensures
        res@ == concat(parts@.map_values(|e: Vec<char>| e@)),
{
    let ghost pv = parts@.map_values(|e: Vec<char>| e@);
    let mut out: Vec<char> = Vec::new();
    let mut i: usize = 0;
    assert(pv.take(0) =~= Seq::<Seq<char>>::empty());
    while i < parts.len()
        invariant
            i <= parts.len(),
            pv == parts@.map_values(|e: Vec<char>| e@),
            out@ == concat(pv.take(i as int)),
        decreases parts.len() - i,
    {
        assert(pv.take(i + 1).drop_last() =~= pv.take(i as int));
        extend_chars(&mut out, &parts[i]);
        i += 1;
    }
    assert(pv.take(parts.len() as int) =~= pv);
    out
}

/// The `<Contents>` element of a listed object.
fn contents_exec(key: &[char], m: &ObjectMeta) -> (res: Vec<char>)
    ensures
        res@ == contents_xml(key@, *m),
{
    let mut out = chars_of("<Contents><Key>");
    extend_chars(&mut out, &escape_chars(key));
    extend_chars(&mut out, &chars_of("</Key><LastModified>"));
    extend_chars(&mut out, &chars_of(m.last_modified.as_str()));
    extend_chars(&mut out, &chars_of("</LastModified><Size>"));
    extend_chars(&mut out, &dec_chars(m.size));
    extend_chars(&mut out, &chars_of("</Size><StorageClass>STANDARD</StorageClass></Contents>"));
    out
}

/// The `max-keys` of a listing query ([`max_keys_spec`]).
fn max_keys_of(params: &Vec<(Vec<char>, Vec<char>)>) -> (res: usize)
    ensures
        res as nat == match last_value(pairs_view(params@), "max-keys"@) {
            Some(v) => match parse_unsigned(v, usize::MAX as nat) {
                Some(n) => if n < 1000 {
                    n
                } else {
                    1000
                },
                None => 1000,
            },
            None => 1000,
        },
        res <= 1000,
{
    match last_value_exec(params, "max-keys") {
        Some(v) => match parse_unsigned_chars(&v, usize::MAX as u64) {
            Some(n) => {
                if n < 1000 {
                    n as usize
                } else {
                    1000
                }
            },
            None => 1000,
        },
        None => 1000,
    }
}

/// The listing state of the vectors a scan fills.
pub open spec fn listed_of(prefixes: Seq<Vec<char>>, contents: Seq<Vec<char>>, emitted: usize, truncated: bool) -> Listed {
    Listed {
        prefixes: prefixes.map_values(|e: Vec<char>| e@),
        contents: contents.map_values(|e: Vec<char>| e@),
        emitted: emitted as nat,
        truncated,
    }
}

/// Takes one key into a listing ([`list_step`]).
fn scan_step(
    prefixes: &mut Vec<Vec<char>>,
    contents: &mut Vec<Vec<char>>,
    emitted: &mut usize,
    truncated: &mut bool,
    key: &[char],
    meta: &Option<ObjectMeta>,
    prefix: &[char],
    delim: &Option<Vec<char>>,
    max: usize,
)
    requires
        *old(emitted) <= max <= 1000,
        old(contents)@.len() + old(prefixes)@.len() == *old(emitted),
    ensures
        listed_of(final(prefixes)@, final(contents)@, *final(emitted), *final(truncated))
            == list_step(
            listed_of(old(prefixes)@, old(contents)@, *old(emitted), *old(truncated)),
            key@,
            *meta,
            prefix@,
            opt_vec(*delim),
            max as nat,
        ),
        *final(emitted) <= max,
        final(contents)@.len() + final(prefixes)@.len() == *final(emitted),
{
    let ghost pv0 = prefixes@.map_values(|e: Vec<char>| e@);
    let ghost cv0 = contents@.map_values(|e: Vec<char>| e@);
    if *truncated || !starts_with(key, prefix) {
        return;
    }
    let rest = slice_of(key, prefix.len(), key.len());
    assert(rest@ =~= key@.skip(prefix@.len() as int));
    let at = match delim {
        Some(d) => find_sub_exec(&rest, d),
        None => None,
    };
    match at {
        Some(idx) => {
            let d = match delim {
                Some(d) => d,
                None => {
                    assert(false);
                    return;
                },
            };
            let mut cp = slice_of(prefix, 0, prefix.len());
            assert(cp@ =~= prefix@);
            extend_chars(&mut cp, &slice_of(&rest, 0, idx));
            extend_chars(&mut cp, d);
            assert(cp@ =~= prefix@ + rest@.take(idx as int) + d@);
            if !contains_text(prefixes, &cp) {
                if *emitted >= max {
                    *truncated = true;
                } else {
                    let ghost cpv = cp@;
                    prefixes.push(cp);
                    *emitted = *emitted + 1;
                    assert(prefixes@.map_values(|e: Vec<char>| e@) =~= pv0.push(cpv));
                }
            }
        },
        None => {
            if *emitted >= max {
                *truncated = true;
            } else {
                match meta {
                    Some(m) => {
                        let el = contents_exec(key, m);
                        let ghost elv = el@;
                        contents.push(el);
                        *emitted = *emitted + 1;
                        assert(contents@.map_values(|e: Vec<char>| e@) =~= cv0.push(elv));
                    },
                    None => {},
                }
            }
        },
    }
}

/// Lists `keys` ([`list_scan`]).
fn scan_keys(
    keys: &[String],
    metas: &[Option<ObjectMeta>],
    prefix: &[char],
    delim: &Option<Vec<char>>,
    max: usize,
) -> (res: (Vec<Vec<char>>, Vec<Vec<char>>, usize, bool))
    requires
        keys@.len() == metas@.len(),
        max <= 1000,
    ensures
        listed_of(res.0@, res.1@, res.2, res.3) == list_scan(
            strings_view(keys@),
            metas@,
            prefix@,
            opt_vec(*delim),
            max as nat,
        ),
        res.1@.len() + res.0@.len() == res.2,
        res.2 <= 1000,
{
    let ghost kv = strings_view(keys@);
    let mut prefixes: Vec<Vec<char>> = Vec::new();
    let mut contents: Vec<Vec<char>> = Vec::new();
    let mut emitted: usize = 0;
    let mut truncated = false;
    let mut i: usize = 0;
    assert(kv.take(0) =~= Seq::<Seq<char>>::empty());
    assert(metas@.take(0) =~= Seq::<Option<ObjectMeta>>::empty());
    assert(prefixes@.map_values(|e: Vec<char>| e@) =~= Seq::<Seq<char>>::empty());
    assert(contents@.map_values(|e: Vec<char>| e@) =~= Seq::<Seq<char>>::empty());
    while i < keys.len()
        invariant
            i <= keys.len(),
            keys@.len() == metas@.len(),
            kv == strings_view(keys@),
            max <= 1000,
            emitted <= max,
            contents@.len() + prefixes@.len() == emitted,
            listed_of(prefixes@, contents@, emitted, truncated) == list_scan(
                kv.take(i as int),
                metas@.take(i as int),
                prefix@,
                opt_vec(*delim),
                max as nat,
            ),
        decreases keys.len() - i,
    {
        assert(kv.take(i + 1).drop_last() =~= kv.take(i as int));
        assert(metas@.take(i + 1).drop_last() =~= metas@.take(i as int));
        assert(kv.take(i + 1).last() == keys@[i as int]@);
        assert(metas@.take(i + 1).last() == metas@[i as int]);
        let kc = chars_of(keys[i].as_str());
        scan_step(
            &mut prefixes,
            &mut contents,
            &mut emitted,
            &mut truncated,
            &kc,
            &metas[i],
            prefix,
            delim,
            max,
        );
        i += 1;
    }
    assert(kv.take(keys.len() as int) =~= kv);
    assert(metas@.take(keys.len() as int) =~= metas@);
    (prefixes, contents, emitted, truncated)
}

/// The `<CommonPrefixes>` elements of the rolled-up prefixes, in order.
fn prefixes_exec(prefixes: &Vec<Vec<char>>) -> (res: Vec<char>)
    ensures
        res@ == concat(prefixes@.map_values(|e: Vec<char>| e@).map_values(|cp: Seq<char>| prefix_xml(cp))),
{
    let ghost pv = prefixes@.map_values(|e: Vec<char>| e@);
    let mut rendered: Vec<Vec<char>> = Vec::new();
    let mut j: usize = 0;
    assert(rendered@.map_values(|e: Vec<char>| e@) =~= pv.take(0).map_values(|cp: Seq<char>| prefix_xml(cp)));
    while j < prefixes.len()
        invariant
            j <= prefixes.len(),
            pv == prefixes@.map_values(|e: Vec<char>| e@),
            rendered@.map_values(|e: Vec<char>| e@) == pv.take(j as int).map_values(
                |cp: Seq<char>| prefix_xml(cp),
            ),
        decreases prefixes.len() - j,
    {
        let mut el = chars_of("<CommonPrefixes><Prefix>");
        extend_chars(&mut el, &escape_chars(&prefixes[j]));
        extend_chars(&mut el, &chars_of("</Prefix></CommonPrefixes>"));
        let ghost before = rendered@.map_values(|e: Vec<char>| e@);
        let ghost elv = el@;
        rendered.push(el);
        assert(rendered@.map_values(|e: Vec<char>| e@) =~= before.push(elv));
        assert(pv.take(j + 1).map_values(|cp: Seq<char>| prefix_xml(cp)) =~= pv.take(
            j as int,
        ).map_values(|cp: Seq<char>| prefix_xml(cp)).push(prefix_xml(pv[j as int])));
        j += 1;
    }
    assert(pv.take(prefixes.len() as int) =~= pv);
    concat_exec(&rendered)
}

/// The ListObjectsV2 answer for `query` over `keys` (to be given in sorted
/// order, see [`sorted_keys`]) with `metas` the metadata of each key's file,
/// where it could be read.
pub fn list_objects_body(bucket: &str, query: &str, keys: &[String], metas: &[Option<ObjectMeta>]) -> (res: String)
    requires
        keys@.len() == metas@.len(),
    ensures
        res@ == list_objects_spec(bucket@, query@, strings_view(keys@), metas@),
{
    let params = query_params(query);
    assert(pairs_view(params@) == query_map(query@));
    let prefix = match last_value_exec(&params, "prefix") {
        Some(p) => p,
        None => Vec::new(),
    };
    assert(prefix@ == prefix_spec(query@));
    let delim = last_value_exec(&params, "delimiter");
    assert(opt_vec(delim) == delimiter_spec(query@));
    let max = max_keys_of(&params);
    let (prefixes, contents, emitted, truncated) = scan_keys(keys, metas, &prefix, &delim, max);
    let mut out = chars_of(XML_DECL);
    extend_chars(
        &mut out,
        &chars_of("<ListBucketResult xmlns=\"http://s3.amazonaws.com/doc/2006-03-01/\"><Name>"),
    );
    extend_chars(&mut out, &escape_chars(&chars_of(bucket)));
    extend_chars(&mut out, &chars_of("</Name><Prefix>"));
    extend_chars(&mut out, &escape_chars(&prefix));
    extend_chars(&mut out, &chars_of("</Prefix><KeyCount>"));
    extend_chars(&mut out, &dec_chars(emitted as u64));
    extend_chars(&mut out, &chars_of("</KeyCount><MaxKeys>"));
    extend_chars(&mut out, &dec_chars(max as u64));
    extend_chars(&mut out, &chars_of("</MaxKeys><IsTruncated>"));
    if truncated {
        extend_chars(&mut out, &chars_of("true"));
    } else {
        extend_chars(&mut out, &chars_of("false"));
    }
    extend_chars(&mut out, &chars_of("</IsTruncated>"));
    match &delim {
        Some(d) => {
            extend_chars(&mut out, &chars_of("<Delimiter>"));
            extend_chars(&mut out, &escape_chars(d));
            extend_chars(&mut out, &chars_of("</Delimiter>"));
        },
        None => {},
    }
    extend_chars(&mut out, &concat_exec(&contents));
    extend_chars(&mut out, &prefixes_exec(&prefixes));
    extend_chars(&mut out, &chars_of("</ListBucketResult>"));
    string_of(&out)
}

/// Object keys in the order a listing walks them (code-point order).
pub fn sorted_keys(keys: Vec<String>) -> (res: Vec<String>)
    ensures
        strings_view(res@) == crate::ordered::sort_keys(strings_view(keys@)),
{
    crate::ordered::sort_strings(keys)
}

/// The ListAllMyBuckets answer: the one bucket, created at `now`.
pub fn list_buckets_body(bucket: &str, now_secs: i64, now_nanos: u32) -> (res: String)
    requires
        -MAX_TIMESTAMP_SECS <= now_secs <= MAX_TIMESTAMP_SECS,
        now_nanos < 1_000_000_000,
    ensures
        res@ == buckets_xml(bucket@, utc_format(now_secs as int, now_nanos as int, ISO8601_FORMAT@)),
{
    let created = iso8601(now_secs, now_nanos);
    let mut out = chars_of(XML_DECL);
    extend_chars(
        &mut out,
        &chars_of(
            "<ListAllMyBucketsResult xmlns=\"http://s3.amazonaws.com/doc/2006-03-01/\"><Owner><ID>rockboxd</ID><DisplayName>rockboxd</DisplayName></Owner><Buckets><Bucket><Name>",
        ),
    );
    extend_chars(&mut out, &escape_chars(&chars_of(bucket)));
    extend_chars(&mut out, &chars_of("</Name><CreationDate>"));
    extend_chars(&mut out, &chars_of(created.as_str()));
    extend_chars(&mut out, &chars_of("</CreationDate></Bucket></Buckets></ListAllMyBucketsResult>"));
    string_of(&out)
}

// ── Objects ─────────────────────────────────────────────────────────────────

/// The resource named in the answers about a bucket: `/{bucket}`.
pub fn bucket_resource(bucket: &str) -> (res: String)
    ensures
        res@ == seq!['/'] + bucket@,
{
    let mut out: Vec<char> = Vec::new();
    out.push('/');
    extend_chars(&mut out, &chars_of(bucket));
    string_of(&out)
}

/// The resource named in the answers about an object: `/{bucket}/{key}`.
pub fn object_resource(bucket: &str, key: &str) -> (res: String)
    ensures
        res@ == seq!['/'] + bucket@ + seq!['/'] + key@,
{
    let mut out: Vec<char> = Vec::new();
    out.push('/');
    extend_chars(&mut out, &chars_of(bucket));
    out.push('/');
    extend_chars(&mut out, &chars_of(key));
    string_of(&out)
}

/// The answer to a key that could leave the music directory.
fn key_escapes(resource: &str) -> (res: S3Error)
    ensures
        res@ == (400u16, "InvalidArgument"@, "Object key escapes music_dir"@, resource@),
{
    s3_error(400, "InvalidArgument", "Object key escapes music_dir", resource)
}

/// The file a GET, HEAD or DELETE of `key` in `bucket` works on: the bucket
/// is checked, then the signature, then the key.
pub fn object_target(state: &S3State, bucket: &str, key: &str, input: &AuthInput, resource: &str) -> (res: Result<String, S3Error>)
    ensures
        bucket@ != state.bucket@ ==> (res matches Err(e) && e@ == (
            404u16,
            "NoSuchBucket"@,
            "The specified bucket does not exist"@,
            resource@,
        )),
        bucket@ == state.bucket@ ==> exists|s: i64, n: u32|
            match #[trigger] verify_spec(*input, s as int, n as int) {
                Err(e) => res matches Err(x) && x@ == auth_failure(e, resource@),
                Ok(()) => match resolve_key_spec(state.music_dir@, key@) {
                    Some(p) => res matches Ok(q) && q@ == p,
                    None => res matches Err(x) && x@ == (
                        400u16,
                        "InvalidArgument"@,
                        "Object key escapes music_dir"@,
                        resource@,
                    ),
                },
            },
{
    check_bucket(state, bucket, resource)?;
    authorize(input, resource)?;
    match resolve_key(state.music_dir.as_str(), key) {
        Some(p) => Ok(p),
        None => Err(key_escapes(resource)),
    }
}

/// The file a PUT of `key` in `bucket` writes: the bucket is checked, then
/// the signature (over the body's hash), then that the key is audio, then
/// the key.
pub fn put_target(state: &S3State, bucket: &str, key: &str, input: &AuthInput, resource: &str) -> (res: Result<String, S3Error>)
    ensures
        bucket@ != state.bucket@ ==> (res matches Err(e) && e@ == (
            404u16,
            "NoSuchBucket"@,
            "The specified bucket does not exist"@,
            resource@,
        )),
        bucket@ == state.bucket@ ==> exists|s: i64, n: u32|
            match #[trigger] verify_spec(*input, s as int, n as int) {
                Err(e) => res matches Err(x) && x@ == auth_failure(e, resource@),
                Ok(()) => if !is_audio_key_spec(key@) {
                    res matches Err(x) && x@ == (
                        400u16,
                        "InvalidRequest"@,
                        "Only audio file extensions are accepted (mp3, flac, ogg, m4a, wav, opus, \u{2026})"@,
                        resource@,
                    )
                } else {
                    match resolve_key_spec(state.music_dir@, key@) {
                        Some(p) => res matches Ok(q) && q@ == p,
                        None => res matches Err(x) && x@ == (
                            400u16,
                            "InvalidArgument"@,
                            "Object key escapes music_dir"@,
                            resource@,
                        ),
                    }
                },
            },
{
    check_bucket(state, bucket, resource)?;
    authorize(input, resource)?;
    if !is_audio_key(key) {
        return Err(
            s3_error(
                400,
                "InvalidRequest",
                "Only audio file extensions are accepted (mp3, flac, ogg, m4a, wav, opus, \u{2026})",
                resource,
            ),
        );
    }
    match resolve_key(state.music_dir.as_str(), key) {
        Some(p) => Ok(p),
        None => Err(key_escapes(resource)),
    }
}

/// A file operation of the gateway that failed.
#[derive(Debug, Clone, Copy, PartialEq, Eq, Structural)]
pub enum FileFailure {
    CreateParent,
    Write,
    Delete,
    Read,
}

/// The message of a failed file operation.
pub open spec fn failure_message(f: FileFailure) -> Seq<char> {
    match f {
        FileFailure::CreateParent => "Failed to create parent directory"@,
        FileFailure::Write => "Failed to write object"@,
        FileFailure::Delete => "Failed to delete object"@,
        FileFailure::Read => "Failed to read object"@,
    }
}

/// The answer to a failed file operation: `500 InternalError`.
pub fn internal_error(failure: FileFailure, resource: &str) -> (res: S3Error)
    ensures
        res@ == (500u16, "InternalError"@, failure_message(failure), resource@),
{
    let message = match failure {
        FileFailure::CreateParent => "Failed to create parent directory",
        FileFailure::Write => "Failed to write object",
        FileFailure::Delete => "Failed to delete object",
        FileFailure::Read => "Failed to read object",
    };
    s3_error(500, "InternalError", message, resource)
}

/// How removing an object's file went.
#[derive(Debug, Clone, Copy, PartialEq, Eq, Structural)]
pub enum Removal {
    Removed,
    NotFound,
    Failed,
}

/// The answer to a DELETE: `204` whether the file was removed or was not
/// there, `500` when removing it failed.
pub fn delete_reply(removal: Removal, resource: &str) -> (res: Result<u16, S3Error>)
    ensures
        removal != Removal::Failed ==> res == Ok::<u16, S3Error>(204),
        removal == Removal::Failed ==> (res matches Err(e) && e@ == (
            500u16,
            "InternalError"@,
            "Failed to delete object"@,
            resource@,
        )),
{
    match removal {
        Removal::Removed => Ok(204),
        Removal::NotFound => Ok(204),
        Removal::Failed => Err(internal_error(FileFailure::Delete, resource)),
    }
}

/// A successful answer about an object.
pub struct ObjectHeaders {
    pub content_length: u64,
    pub last_modified: String,
    pub content_type: String,
    /// Sent with GET answers only.
    pub etag: Option<String>,
}

/// The answer about an object.
pub enum ObjectReply {
    Error(S3Error),
    /// `304 Not Modified`.
    NotModified,
    /// `200 OK` with these headers; a GET answer carries the file's bytes.
    Found(ObjectHeaders),
}

/// What the look at an object's file decides.
pub enum ObjectStep {
    /// Answer now.
    Reply(ObjectReply),
    /// Read the file's bytes, then answer with [`object_get_reply`].
    ReadBody,
}

/// The headers of an object found on disk.
pub open spec fn headers_spec(key: Seq<char>, f: FileInfo, etag: Option<Seq<char>>, h: ObjectHeaders) -> bool {
    &&& h.content_length == f.len
    &&& h.last_modified@ == utc_format(f.modified_secs as int, f.modified_nanos as int, HTTP_DATE_FORMAT@)
    &&& h.content_type@ == content_type_spec(key)
    &&& opt_chars(h.etag) == etag
}

/// A modification time the date formatting accepts.
pub open spec fn time_in_range(f: FileInfo) -> bool {
    -MAX_TIMESTAMP_SECS <= f.modified_secs <= MAX_TIMESTAMP_SECS && f.modified_nanos < 1_000_000_000
}

/// The headers of an object's answer.
fn object_headers(key: &str, file: &FileInfo, etag: Option<String>) -> (res: ObjectHeaders)
    requires
        time_in_range(*file),
    ensures
        headers_spec(key@, *file, opt_chars(etag), res),
{
    ObjectHeaders {
        content_length: file.len,
        last_modified: http_date(file.modified_secs, file.modified_nanos),
        content_type: content_type_for(key),
        etag,
    }
}

/// The first look at the file of an object: a missing file, or one that is
/// not a regular file, is `404 NoSuchKey`; a HEAD is answered from the
/// metadata; a GET goes on to read the file.
pub fn object_head_step(key: &str, resource: &str, include_body: bool, file: &Option<FileInfo>) -> (res: ObjectStep)
    requires
        *file matches Some(f) ==> time_in_range(f),
    ensures
        match *file {
            Some(f) => if !f.is_file {
                res matches ObjectStep::Reply(ObjectReply::Error(e)) && e@ == (
                    404u16,
                    "NoSuchKey"@,
                    "The specified key does not exist"@,
                    resource@,
                )
            } else if !include_body {
                res matches ObjectStep::Reply(ObjectReply::Found(h)) && headers_spec(key@, f, None, h)
            } else {
                res is ReadBody
            },
            None => res matches ObjectStep::Reply(ObjectReply::Error(e)) && e@ == (
                404u16,
                "NoSuchKey"@,
                "The specified key does not exist"@,
                resource@,
            ),
        },
{
    match file {
        Some(f) => {
            if !f.is_file {
                ObjectStep::Reply(
                    ObjectReply::Error(
                        s3_error(404, "NoSuchKey", "The specified key does not exist", resource),
                    ),
                )
            } else if !include_body {
                ObjectStep::Reply(ObjectReply::Found(object_headers(key, f, None)))
            } else {
                ObjectStep::ReadBody
            }
        },
        None => ObjectStep::Reply(
            ObjectReply::Error(s3_error(404, "NoSuchKey", "The specified key does not exist", resource)),
        ),
    }
}

/// The answer to a GET once the file was read (`bytes`, or none where
/// reading failed): `500` on a failed read, `304` when `If-None-Match` is the
/// ETag, `412` when an `If-Match` is not, the object otherwise.
pub fn object_get_reply(
    key: &str,
    resource: &str,
    file: &FileInfo,
    bytes: Option<&[u8]>,
    if_none_match: Option<&str>,
    if_match: Option<&str>,
) -> (res: ObjectReply)
    requires
        time_in_range(*file),
    ensures
        match bytes {
            None => res matches ObjectReply::Error(e) && e@ == (
                500u16,
                "InternalError"@,
                "Failed to read object"@,
                resource@,
            ),
            Some(b) => {
                let etag = etag_spec(b@);
                if opt_str_chars(if_none_match) == Some(etag) {
                    res is NotModified
                } else if if_match is Some && opt_str_chars(if_match) != Some(etag) {
                    res matches ObjectReply::Error(e) && e@ == (
                        412u16,
                        "PreconditionFailed"@,
                        "If-Match did not match ETag"@,
                        resource@,
                    )
                } else {
                    res matches ObjectReply::Found(h) && headers_spec(key@, *file, Some(etag), h)
                }
            },
        },
{
    let b = match bytes {
        Some(b) => b,
        None => return ObjectReply::Error(internal_error(FileFailure::Read, resource)),
    };
    let etag = etag_hex(b);
    let ec = chars_of(etag.as_str());
    if let Some(inm) = if_none_match {
        if chars_eq(&chars_of(inm), &ec) {
            return ObjectReply::NotModified;
        }
    }
    if let Some(im) = if_match {
        if !chars_eq(&chars_of(im), &ec) {
            return ObjectReply::Error(
                s3_error(412, "PreconditionFailed", "If-Match did not match ETag", resource),
            );
        }
    }
    ObjectReply::Found(object_headers(key, file, Some(etag)))
}

// ── Laws ────────────────────────────────────────────────────────────────────

/// A name that stays where it is pushed: not empty, not `.` or `..`, and
/// without a `/`.
pub open spec fn plain_name(n: Seq<char>) -> bool {
    n.len() > 0 && n != "."@ && n != ".."@ && !n.contains('/')
}

proof fn lemma_named_segments_from(segs: Seq<Seq<char>>)
    ensures
        forall|i: int|
            0 <= i < named_segments(segs).len() ==> {
                &&& (#[trigger] named_segments(segs)[i]).len() > 0
                &&& named_segments(segs)[i] != "."@
                &&& segs.contains(named_segments(segs)[i])
            },
    decreases segs.len(),
{
    if segs.len() > 0 {
        let t = segs.drop_last();
        lemma_named_segments_from(t);
        let r = named_segments(t);
        assert forall|i: int| 0 <= i < named_segments(segs).len() implies {
            &&& (#[trigger] named_segments(segs)[i]).len() > 0
            &&& named_segments(segs)[i] != "."@
            &&& segs.contains(named_segments(segs)[i])
        } by {
            if i < r.len() {
                assert(named_segments(segs)[i] == r[i]);
                let k = choose|k: int| 0 <= k < t.len() && t[k] == r[i];
                assert(segs[k] == t[k]);
            } else {
                assert(named_segments(segs)[i] == segs.last());
                assert(segs[segs.len() - 1] == segs.last());
            }
        }
    }
}

proof fn lemma_push_all_prefix(dir: Seq<char>, names: Seq<Seq<char>>)
    ensures
        dir.is_prefix_of(path_push_all(dir, names)),
    decreases names.len(),
{
    if names.len() > 0 {
        lemma_push_all_prefix(dir, names.drop_last());
        let p = path_push_all(dir, names.drop_last());
        let n = names.last();
        if p.len() == 0 || p.last() == '/' {
            assert((p + n).take(p.len() as int) =~= p);
        } else {
            assert((p + seq!['/'] + n).take(p.len() as int) =~= p);
        }
        assert forall|i: int| 0 <= i < dir.len() implies dir[i] == path_push_all(dir, names)[i] by {
            assert(dir[i] == p[i]);
        }
    }
}

/// A key is only ever mapped inside the music directory: the file is the
/// directory with the key's names pushed onto it, each of them a plain name
/// (never empty, `.`, `..`, or holding a `/`).
pub proof fn law_resolved_key_stays_inside(dir: Seq<char>, key: Seq<char>)
    ensures
        resolve_key_spec(dir, key) matches Some(p) ==> {
            let names = named_segments(split(key, '/'));
            &&& p == path_push_all(dir, names)
            &&& dir.is_prefix_of(p)
            &&& forall|i: int| 0 <= i < names.len() ==> plain_name(#[trigger] names[i])
        },
{
    let segs = split(key, '/');
    let names = named_segments(segs);
    if resolve_key_spec(dir, key) is Some {
        lemma_named_segments_from(segs);
        lemma_split_pieces_lack_sep(key, '/');
        lemma_push_all_prefix(dir, names);
        assert forall|i: int| 0 <= i < names.len() implies plain_name(#[trigger] names[i]) by {
            assert(segs.contains(names[i]));
            let k = choose|k: int| 0 <= k < segs.len() && segs[k] == names[i];
            assert(!segs[k].contains('/'));
            assert(!segs.contains(".."@));
        }
    }
}

/// A listing never holds more than `max-keys` entries, its key count is
/// the number of objects and prefixes it holds, each common prefix appears
/// once, and it is marked truncated only when it is full.
pub proof fn law_listing_bounded(
    keys: Seq<Seq<char>>,
    metas: Seq<Option<ObjectMeta>>,
    prefix: Seq<char>,
    delim: Option<Seq<char>>,
    max: nat,
)
    ensures
        ({
            let l = list_scan(keys, metas, prefix, delim, max);
            &&& l.emitted == l.contents.len() + l.prefixes.len()
            &&& l.emitted <= max
            &&& l.truncated ==> l.emitted == max
            &&& l.prefixes.no_duplicates()
        }),
    decreases keys.len(),
{
    if keys.len() > 0 {
        law_listing_bounded(keys.drop_last(), metas.drop_last(), prefix, delim, max);
        let acc = list_scan(keys.drop_last(), metas.drop_last(), prefix, delim, max);
        let l = list_scan(keys, metas, prefix, delim, max);
        if !acc.truncated && prefix.is_prefix_of(keys.last()) {
            let rest = keys.last().skip(prefix.len() as int);
            let at = match delim {
                Some(d) => find_sub(rest, d),
                None => None,
            };
            if at is Some {
                let cp = prefix + rest.take(at->0 as int) + delim->0;
                if !acc.prefixes.contains(cp) && acc.emitted < max {
                    assert(l.prefixes == acc.prefixes.push(cp));
                    assert(l.prefixes.no_duplicates()) by {
                        let p = acc.prefixes.push(cp);
                        assert forall|i: int, j: int|
                            0 <= i < p.len() && 0 <= j < p.len() && i != j implies p[i] != p[j] by {
                            if i < acc.prefixes.len() && j < acc.prefixes.len() {
                            } else if i == acc.prefixes.len() {
                                assert(p[j] == acc.prefixes[j]);
                                assert(acc.prefixes.contains(acc.prefixes[j]));
                            } else {
                                assert(p[i] == acc.prefixes[i]);
                                assert(acc.prefixes.contains(acc.prefixes[i]));
                            }
                        }
                    }
                }
            }
        }
    } else {
        assert(list_scan(keys, metas, prefix, delim, max).prefixes =~= Seq::<Seq<char>>::empty());
    }
}

/// The common prefix a key under `prefix` rolls up into: the prefix, what
/// follows it up to the first delimiter, and the delimiter; none without a
/// delimiter after the prefix.
pub open spec fn common_prefix_of(key: Seq<char>, prefix: Seq<char>, delim: Option<Seq<char>>) -> Option<Seq<char>> {
    let rest = key.skip(prefix.len() as int);
    match delim {
        Some(d) => match find_sub(rest, d) {
            Some(idx) => Some(prefix + rest.take(idx as int) + d),
            None => None,
        },
        None => None,
    }
}

/// The entry of key `i` is in the listing: its common prefix where it has
/// one, else its object where its metadata could be read.
pub open spec fn key_listed(
    l: Listed,
    keys: Seq<Seq<char>>,
    metas: Seq<Option<ObjectMeta>>,
    prefix: Seq<char>,
    delim: Option<Seq<char>>,
    i: int,
) -> bool {
    match common_prefix_of(keys[i], prefix, delim) {
        Some(cp) => l.prefixes.contains(cp),
        None => metas[i] matches Some(m) ==> l.contents.contains(contents_xml(keys[i], m)),
    }
}

/// Nothing is cut off a listing that is not marked truncated: every key
/// under the prefix has its entry in it. A truncated listing left some key
/// under the prefix out: one with no common prefix, or whose common prefix
/// is not listed.
pub proof fn law_listing_truncated_only_when_cut(
    keys: Seq<Seq<char>>,
    metas: Seq<Option<ObjectMeta>>,
    prefix: Seq<char>,
    delim: Option<Seq<char>>,
    max: nat,
)
    requires
        keys.len() == metas.len(),
    ensures
        ({
            let l = list_scan(keys, metas, prefix, delim, max);
            &&& !l.truncated ==> forall|i: int|
                0 <= i < keys.len() && prefix.is_prefix_of(#[trigger] keys[i]) ==> key_listed(
                    l, keys, metas, prefix, delim, i)
            &&& l.truncated ==> exists|i: int|
                0 <= i < keys.len() && prefix.is_prefix_of(#[trigger] keys[i]) && match common_prefix_of(
                    keys[i], prefix, delim) {
                    Some(cp) => !l.prefixes.contains(cp),
                    None => true,
                }
        }),
    decreases keys.len(),
{
    if keys.len() > 0 {
        let ks = keys.drop_last();
        let ms = metas.drop_last();
        law_listing_truncated_only_when_cut(ks, ms, prefix, delim, max);
        let acc = list_scan(ks, ms, prefix, delim, max);
        let l = list_scan(keys, metas, prefix, delim, max);
        let n = keys.len() - 1;
        assert(l == list_step(acc, keys[n], metas[n], prefix, delim, max));
        assert forall|x: Seq<char>| acc.prefixes.contains(x) implies l.prefixes.contains(x) by {
            let k = choose|k: int| 0 <= k < acc.prefixes.len() && acc.prefixes[k] == x;
            if l.prefixes != acc.prefixes {
                assert(l.prefixes[k] == x);
            }
        }
        assert forall|x: Seq<char>| acc.contents.contains(x) implies l.contents.contains(x) by {
            let k = choose|k: int| 0 <= k < acc.contents.len() && acc.contents[k] == x;
            if l.contents != acc.contents {
                assert(l.contents[k] == x);
            }
        }
        if !l.truncated {
            assert(!acc.truncated);
            assert forall|i: int|
                0 <= i < keys.len() && prefix.is_prefix_of(#[trigger] keys[i]) implies key_listed(
                l, keys, metas, prefix, delim, i) by {
                if i < n {
                    assert(keys[i] == ks[i] && metas[i] == ms[i]);
                    assert(prefix.is_prefix_of(ks[i]));
                    assert(key_listed(acc, ks, ms, prefix, delim, i));
                } else {
                    match common_prefix_of(keys[i], prefix, delim) {
                        Some(cp) => {
                            if !acc.prefixes.contains(cp) {
                                assert(l.prefixes == acc.prefixes.push(cp));
                                assert(l.prefixes[acc.prefixes.len() as int] == cp);
                            }
                        },
                        None => {
                            if let Some(m) = metas[i] {
                                assert(l.contents == acc.contents.push(contents_xml(keys[i], m)));
                                assert(l.contents[acc.contents.len() as int] == contents_xml(keys[i], m));
                            }
                        },
                    }
                }
            }
        } else if acc.truncated {
            let i = choose|i: int|
                0 <= i < ks.len() && prefix.is_prefix_of(#[trigger] ks[i]) && match common_prefix_of(
                    ks[i], prefix, delim) {
                    Some(cp) => !acc.prefixes.contains(cp),
                    None => true,
                };
            assert(l == acc);
            assert(keys[i] == ks[i]);
        } else {
            assert(prefix.is_prefix_of(keys[n]));
            assert(l.prefixes == acc.prefixes);
        }
    }
}

/// `ci` gives, for each object a listing holds, the position of its key,
/// ascending.
pub open spec fn object_sources(l: Listed, keys: Seq<Seq<char>>, metas: Seq<Option<ObjectMeta>>, ci: Seq<int>) -> bool {
    &&& ci.len() == l.contents.len()
    &&& forall|j: int| 0 <= j < ci.len() ==> {
        &&& 0 <= #[trigger] ci[j] < keys.len()
        &&& metas[ci[j]] is Some
        &&& l.contents[j] == contents_xml(keys[ci[j]], metas[ci[j]]->0)
    }
    &&& forall|i: int, j: int| 0 <= i < j < ci.len() ==> #[trigger] ci[i] < #[trigger] ci[j]
}

/// `pi` gives, for each common prefix a listing holds, the position of a
/// key that rolls up into it, ascending.
pub open spec fn prefix_sources(
    l: Listed,
    keys: Seq<Seq<char>>,
    prefix: Seq<char>,
    delim: Option<Seq<char>>,
    pi: Seq<int>,
) -> bool {
    &&& pi.len() == l.prefixes.len()
    &&& forall|j: int| 0 <= j < pi.len() ==> {
        &&& 0 <= #[trigger] pi[j] < keys.len()
        &&& common_prefix_of(keys[pi[j]], prefix, delim) == Some(l.prefixes[j])
    }
    &&& forall|i: int, j: int| 0 <= i < j < pi.len() ==> #[trigger] pi[i] < #[trigger] pi[j]
}

proof fn listing_sources(
    keys: Seq<Seq<char>>,
    metas: Seq<Option<ObjectMeta>>,
    prefix: Seq<char>,
    delim: Option<Seq<char>>,
    max: nat,
) -> (res: (Seq<int>, Seq<int>))
    requires
        keys.len() == metas.len(),
    ensures
        object_sources(list_scan(keys, metas, prefix, delim, max), keys, metas, res.0),
        prefix_sources(list_scan(keys, metas, prefix, delim, max), keys, prefix, delim, res.1),
    decreases keys.len(),
{
    if keys.len() == 0 {
        (Seq::<int>::empty(), Seq::<int>::empty())
    } else {
        let ks = keys.drop_last();
        let ms = metas.drop_last();
        let (ci, pi) = listing_sources(ks, ms, prefix, delim, max);
        let acc = list_scan(ks, ms, prefix, delim, max);
        let l = list_scan(keys, metas, prefix, delim, max);
        let n = keys.len() - 1;
        assert(l == list_step(acc, keys[n], metas[n], prefix, delim, max));
        assert forall|j: int| 0 <= j < ci.len() implies keys[ci[j]] == ks[ci[j]] && metas[ci[j]] == ms[ci[j]] by {}
        assert forall|j: int| 0 <= j < pi.len() implies keys[pi[j]] == ks[pi[j]] by {}
        if l.contents.len() > acc.contents.len() {
            let c2 = ci.push(n);
            assert(l.contents == acc.contents.push(contents_xml(keys[n], metas[n]->0)));
            assert forall|j: int| 0 <= j < c2.len() implies {
                &&& 0 <= #[trigger] c2[j] < keys.len()
                &&& metas[c2[j]] is Some
                &&& l.contents[j] == contents_xml(keys[c2[j]], metas[c2[j]]->0)
            } by {
                if j < ci.len() {
                    assert(c2[j] == ci[j]);
                }
            }
            assert forall|i: int, j: int| 0 <= i < j < c2.len() implies #[trigger] c2[i] < #[trigger] c2[j] by {
                assert(c2[i] == ci[i]);
                if j < ci.len() {
                    assert(c2[j] == ci[j]);
                }
            }
            (c2, pi)
        } else if l.prefixes.len() > acc.prefixes.len() {
            let p2 = pi.push(n);
            assert forall|j: int| 0 <= j < p2.len() implies {
                &&& 0 <= #[trigger] p2[j] < keys.len()
                &&& common_prefix_of(keys[p2[j]], prefix, delim) == Some(l.prefixes[j])
            } by {
                if j < pi.len() {
                    assert(p2[j] == pi[j]);
                }
            }
            assert forall|i: int, j: int| 0 <= i < j < p2.len() implies #[trigger] p2[i] < #[trigger] p2[j] by {
                assert(p2[i] == pi[i]);
                if j < pi.len() {
                    assert(p2[j] == pi[j]);
                }
            }
            (ci, p2)
        } else {
            (ci, pi)
        }
    }
}

/// A listing follows the order of the keys it walks (code-point order, see
/// [`sorted_keys`]): its objects are those of keys in ascending position, and
/// so are its common prefixes, each the prefix of its key.
pub proof fn law_listing_in_key_order(
    keys: Seq<Seq<char>>,
    metas: Seq<Option<ObjectMeta>>,
    prefix: Seq<char>,
    delim: Option<Seq<char>>,
    max: nat,
)
    requires
        keys.len() == metas.len(),
    ensures
        exists|ci: Seq<int>| #[trigger] object_sources(list_scan(keys, metas, prefix, delim, max), keys, metas, ci),
        exists|pi: Seq<int>| #[trigger] prefix_sources(list_scan(keys, metas, prefix, delim, max), keys, prefix, delim, pi),
{
    let (ci, pi) = listing_sources(keys, metas, prefix, delim, max);
}

/// A refused signature is always answered with an error naming the
/// resource: `501` for a streaming payload, `403` for every other refusal.
pub proof fn law_refusals_are_errors(e: SigV4Error, resource: Seq<char>)
    ensures
        auth_failure(e, resource).0 == (if e is UnsupportedPayload {
            501u16
        } else {
            403u16
        }),
        auth_failure(e, resource).3 == resource,
        auth_failure(e, resource).1.len() > 0,
{
    reveal_strlit("AccessDenied");
    reveal_strlit("InvalidAccessKeyId");
    reveal_strlit("RequestTimeTooSkewed");
    reveal_strlit("NotImplemented");
    reveal_strlit("SignatureDoesNotMatch");
}

} // verus!
