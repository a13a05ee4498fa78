//! The Subsonic API server: how it authenticates requests (salted token, or
//! a password given plain or hex-encoded), the query parameters of its
//! handlers, the now-playing slot, and the XML pieces of its answers.
use vstd::prelude::*;
use vstd::utf8::decode_utf8;
use vstd::utf8::encode_utf8;
use vstd::utf8::valid_utf8;

use crate::codec::hex_byte_value;
use crate::codec::hex_byte_value_exec;
use crate::codec::hex_digit_lower;
use crate::codec::hex_lower;
use crate::codec::lemma_hex_lower_len;
use crate::navidrome::ascii_bytes;
use crate::codec::dec;
use crate::codec::dec_digit;
use crate::codec::dec_value;
use crate::codec::is_dec_digit;
use crate::codec::unsigned_digits;
use crate::text::find_char;
use crate::codec::dec_chars;
use crate::codec::parse_unsigned;
use crate::codec::parse_unsigned_chars;
use crate::outside::guess_mime;
use crate::outside::guessed_mime;
use crate::text::after_first;
use crate::text::before_first;
use crate::text::find_char_exec;
use crate::text::starts_with;
use crate::navidrome::compute_token;
use crate::navidrome::token_of;
use crate::outside::from_utf8;
use crate::text::chars_eq;
use crate::text::chars_of;
use crate::text::extend_chars;
use crate::text::find_last_char;
use crate::text::find_last_char_exec;
use crate::text::lemma_split_nonempty;
use crate::text::lower;
use crate::text::lower_chars;
use crate::text::opt_chars;
use crate::text::opt_str_chars;
use crate::text::slice_of;
use crate::text::split;
use crate::text::split_chars;
use crate::text::string_of;
use crate::text::strip_prefix;
use crate::text::strip_prefix_chars;
use crate::xml::escape;
use crate::xml::escape_chars;

verus! {

/// The Subsonic API version the server speaks.
pub const API_VERSION: &'static str = "1.16.1";

/// The error code of a failed authentication.
pub const WRONG_CREDENTIALS: u32 = 40;

// ── Authentication ──────────────────────────────────────────────────────────

/// `u8::from_str_radix(_, 16)` of a two-character slice given as its two
/// bytes: an optional `+` and one hex digit, or two hex digits.
pub open spec fn radix16_pair(b0: u8, b1: u8) -> Option<u8> {
    if b0 == 43 {
        hex_byte_value(b1)
    } else {
        match (hex_byte_value(b0), hex_byte_value(b1)) {
            (Some(h), Some(l)) => Some((16 * h + l) as u8),
            _ => None,
        }
    }
}

/// The bytes of consecutive byte pairs of `b` (of even length), or none
/// where a pair does not read.
pub open spec fn hex_pairs(b: Seq<u8>) -> Option<Seq<u8>>
    decreases b.len(),
{
    if b.len() < 2 {
        Some(Seq::<u8>::empty())
    } else {
        match (hex_pairs(b.take(b.len() - 2)), radix16_pair(b[b.len() - 2], b[b.len() - 1])) {
            (Some(r), Some(v)) => Some(r.push(v)),
            _ => None,
        }
    }
}

/// The text hex-encoded by `s`: its UTF-8 bytes of even length read in
/// pairs, then read as UTF-8.
pub open spec fn hex_decode_spec(s: Seq<char>) -> Option<Seq<char>> {
    let b = encode_utf8(s);
    if b.len() % 2 != 0 {
        None
    } else {
        match hex_pairs(b) {
            Some(bytes) => if valid_utf8(bytes) {
                Some(decode_utf8(bytes))
            } else {
                None
            },
            None => None,
        }
    }
}

/// Whether cutting the UTF-8 bytes of `s` into pairs cuts no character:
/// every even offset starts a character.
pub open spec fn pairs_on_boundaries(s: Seq<char>) -> bool {
    let b = encode_utf8(s);
    b.len() % 2 == 0 ==> forall|i: int|
        0 <= i < b.len() && i % 2 == 0 ==> !(128 <= #[trigger] b[i] < 192)
}

/// The password a plain `p` parameter gives: `enc:` and hex, decoded where
/// that decodes, the parameter itself otherwise.
pub open spec fn plain_password(p: Seq<char>) -> Seq<char> {
    match strip_prefix(p, "enc:"@) {
        Some(h) => match hex_decode_spec(h) {
            Some(d) => d,
            None => p,
        },
        None => p,
    }
}

/// Whether the credentials `u`, `p`, `t`, `s` of a request are those of the
/// configured user: the user name must match; then a token and salt, where
/// both are given, must make the password's token; otherwise a password
/// must be given and be the password.
pub open spec fn check_auth_spec(
    username: Seq<char>,
    password: Seq<char>,
    u: Option<Seq<char>>,
    p: Option<Seq<char>>,
    t: Option<Seq<char>>,
    s: Option<Seq<char>>,
) -> bool {
    match u {
        None => false,
        Some(ru) => if ru != username {
            false
        } else if t is Some && s is Some {
            t->0 == token_of(password, s->0)
        } else {
            match p {
                Some(plain) => plain_password(plain) == password,
                None => false,
            }
        },
    }
}

/// Whether a check of these credentials reads a hex-encoded password.
pub open spec fn reads_hex_password(
    username: Seq<char>,
    u: Option<Seq<char>>,
    p: Option<Seq<char>>,
    t: Option<Seq<char>>,
    s: Option<Seq<char>>,
) -> bool {
    &&& u == Some(username)
    &&& !(t is Some && s is Some)
    &&& p is Some
    &&& strip_prefix(p->0, "enc:"@) is Some
}

/// The byte pair at `i` read in base 16 ([`radix16_pair`]).
fn radix16_pair_exec(b0: u8, b1: u8) -> (res: Option<u8>)
    ensures
        res == radix16_pair(b0, b1),
{
    if b0 == 43 {
        hex_byte_value_exec(b1)
    } else {
        match (hex_byte_value_exec(b0), hex_byte_value_exec(b1)) {
            (Some(h), Some(l)) => Some(16 * h + l),
            _ => None,
        }
    }
}

/// The text hex-encoded by `s` ([`hex_decode_spec`]).
pub fn hex_decode(s: &str) -> (res: Option<String>)
    requires
        pairs_on_boundaries(s@),
    ensures
        opt_chars(res) == hex_decode_spec(s@),
{
    let b = s.as_bytes();
    let ghost bv = encode_utf8(s@);
    assert(b@ == bv);
    if b.len() % 2 != 0 {
        return None;
    }
    let mut out: Vec<u8> = Vec::new();
    let mut i: usize = 0;
    assert(bv.take(0) =~= Seq::<u8>::empty());
    while i < b.len()
        invariant
            i <= b.len(),
            i % 2 == 0,
            b.len() % 2 == 0,
            b@ == bv,
            bv == encode_utf8(s@),
            hex_pairs(bv.take(i as int)) == Some(out@),
        decreases b.len() - i,
    {
        let ghost pre = bv.take(i as int);
        let ghost next = bv.take(i + 2);
        assert(next.take(next.len() - 2) =~= pre);
        assert(next[next.len() - 2] == bv[i as int]);
        assert(next[next.len() - 1] == bv[i + 1]);
        match radix16_pair_exec(b[i], b[i + 1]) {
            Some(v) => {
                out.push(v);
            },
            None => {
                assert(hex_pairs(next) is None);
                proof {
                    lemma_hex_pairs_none(bv, (i + 2) as int);
                    assert(hex_pairs(bv) is None);
                    assert(bv.len() % 2 == 0);
                    assert(hex_decode_spec(s@) is None);
                }
                return None;
            },
        }
        i += 2;
    }
    assert(bv.take(b.len() as int) =~= bv);
    from_utf8(out)
}

proof fn lemma_hex_pairs_none(b: Seq<u8>, k: int)
    requires
        2 <= k <= b.len(),
        k % 2 == 0,
        b.len() % 2 == 0,
        hex_pairs(b.take(k)) is None,
    ensures
        hex_pairs(b) is None,
    decreases b.len() - k,
{
    if k < b.len() {
        let n = b.take(k + 2);
        assert(n.take(n.len() - 2) =~= b.take(k));
        lemma_hex_pairs_none(b, k + 2);
    } else {
        assert(b.take(k) =~= b);
    }
}

/// Whether the credentials of a request are those of the configured user
/// ([`check_auth_spec`]).
pub fn check_auth(
    username: &str,
    password: &str,
    u: Option<&str>,
    p: Option<&str>,
    t: Option<&str>,
    s: Option<&str>,
) -> (res: bool)
    requires
        reads_hex_password(username@, opt_str_chars(u), opt_str_chars(p), opt_str_chars(t), opt_str_chars(s))
            ==> pairs_on_boundaries(strip_prefix(p->0@, "enc:"@)->0),
    ensures
        res == check_auth_spec(
            username@,
            password@,
            opt_str_chars(u),
            opt_str_chars(p),
            opt_str_chars(t),
            opt_str_chars(s),
        ),
{
    let req_user = match u {
        Some(x) => x,
        None => return false,
    };
    if !chars_eq(&chars_of(req_user), &chars_of(username)) {
        return false;
    }
    if let (Some(token), Some(salt)) = (t, s) {
        let expected = compute_token(password, salt);
        return chars_eq(&chars_of(token), &chars_of(expected.as_str()));
    }
    if let Some(plain) = p {
        let pc = chars_of(plain);
        proof {
            reveal_strlit("enc:");
        }
        let decoded: Vec<char> = match strip_prefix_chars(&pc, &chars_of("enc:")) {
            Some(h) => {
                let hs = string_of(&h);
                match hex_decode(hs.as_str()) {
                    Some(d) => chars_of(d.as_str()),
                    None => pc,
                }
            },
            None => pc,
        };
        return chars_eq(&decoded, &chars_of(password));
    }
    false
}

// ── Query parameters ────────────────────────────────────────────────────────

/// The values of the parts `key=value` of a raw query string, in order.
pub open spec fn param_values(parts: Seq<Seq<char>>, key: Seq<char>) -> Seq<Seq<char>>
    decreases parts.len(),
{
    if parts.len() == 0 {
        Seq::<Seq<char>>::empty()
    } else {
        let r = param_values(parts.drop_last(), key);
        match strip_prefix(parts.last(), key + seq!['=']) {
            Some(v) => r.push(v),
            None => r,
        }
    }
}

/// Every value of `key` in a raw query string (`id=1&id=2`), undecoded.
pub fn multi_param(query: &str, key: &str) -> (res: Vec<String>)
    ensures
        res@.map_values(|s: String| s@) == param_values(split(query@, '&'), key@),
{
    let parts = split_chars(&chars_of(query), '&');
    let ghost pv = split(query@, '&');
    let mut pre = chars_of(key);
    pre.push('=');
    assert(pre@ =~= key@ + seq!['=']);
    let mut out: Vec<String> = Vec::new();
    let mut i: usize = 0;
    assert(pv.take(0) =~= Seq::<Seq<char>>::empty());
    while i < parts.len()
        invariant
            i <= parts.len(),
            parts@.len() == pv.len(),
            forall|j: int| 0 <= j < parts@.len() ==> (#[trigger] parts@[j])@ == pv[j],
            pre@ == key@ + seq!['='],
            out@.map_values(|s: String| s@) == param_values(pv.take(i as int), key@),
        decreases parts.len() - i,
    {
        assert(pv.take(i + 1).drop_last() =~= pv.take(i as int));
        assert(pv.take(i + 1).last() == parts@[i as int]@);
        match strip_prefix_chars(&parts[i], &pre) {
            Some(v) => {
                let ghost before = out@.map_values(|s: String| s@);
                out.push(string_of(&v));
                assert(out@.map_values(|s: String| s@) =~= before.push(v@));
            },
            None => {},
        }
        i += 1;
    }
    assert(pv.take(parts.len() as int) =~= pv);
    out
}

/// The first value of `key` in a raw query string.
pub fn single_param(query: &str, key: &str) -> (res: Option<String>)
    ensures
        ({
            let vs = param_values(split(query@, '&'), key@);
            &&& (vs.len() == 0 ==> res is None)
            &&& (vs.len() > 0 ==> (res matches Some(v) && v@ == vs[0]))
        }),
{
    let all = multi_param(query, key);
    if all.len() == 0 {
        None
    } else {
        let first = &all[0];
        Some(string_of(&chars_of(first.as_str())))
    }
}

// ── Paths and media types ───────────────────────────────────────────────────

/// What follows the last `c` of `s` (all of `s` where there is none):
/// `s.rsplit(c).next()`.
pub open spec fn after_last(s: Seq<char>, c: char) -> Seq<char> {
    match find_last_char(s, c) {
        Some(i) => s.skip(i + 1 as int),
        None => s,
    }
}

pub(crate) fn after_last_exec(s: &[char], c: char) -> (res: Vec<char>)
    ensures
        res@ == after_last(s@, c),
{
    match find_last_char_exec(s, c) {
        Some(i) => {
            assert(i < s.len());
            slice_of(s, i + 1, s.len())
        },
        None => {
            assert(s@.subrange(0, s@.len() as int) =~= s@);
            slice_of(s, 0, s.len())
        },
    }
}

/// The media type of a track by the extension of its path; MP3 where it is
/// not known.
pub open spec fn mime_spec(path: Seq<char>) -> Seq<char> {
    let e = lower(after_last(path, '.'));
    if e == "mp3"@ {
        "audio/mpeg"@
    } else if e == "flac"@ {
        "audio/flac"@
    } else if e == "ogg"@ {
        "audio/ogg"@
    } else if e == "m4a"@ || e == "aac"@ || e == "mp4"@ {
        "audio/mp4"@
    } else if e == "wav"@ {
        "audio/wav"@
    } else if e == "wma"@ {
        "audio/x-ms-wma"@
    } else if e == "opus"@ {
        "audio/opus"@
    } else if e == "aiff"@ || e == "aif"@ {
        "audio/aiff"@
    } else if e == "wv"@ {
        "audio/x-wavpack"@
    } else if e == "mpc"@ {
        "audio/x-musepack"@
    } else if e == "ape"@ {
        "audio/x-ape"@
    } else {
        "audio/mpeg"@
    }
}

/// The media type a track is streamed with.
pub fn mime_for_path(path: &str) -> (res: String)
    ensures
        res@ == mime_spec(path@),
{
    let e = lower_chars(&after_last_exec(&chars_of(path), '.'));
    let t = if chars_eq(&e, &chars_of("mp3")) {
        "audio/mpeg"
    } else if chars_eq(&e, &chars_of("flac")) {
        "audio/flac"
    } else if chars_eq(&e, &chars_of("ogg")) {
        "audio/ogg"
    } else if chars_eq(&e, &chars_of("m4a")) || chars_eq(&e, &chars_of("aac")) || chars_eq(
        &e,
        &chars_of("mp4"),
    ) {
        "audio/mp4"
    } else if chars_eq(&e, &chars_of("wav")) {
        "audio/wav"
    } else if chars_eq(&e, &chars_of("wma")) {
        "audio/x-ms-wma"
    } else if chars_eq(&e, &chars_of("opus")) {
        "audio/opus"
    } else if chars_eq(&e, &chars_of("aiff")) || chars_eq(&e, &chars_of("aif")) {
        "audio/aiff"
    } else if chars_eq(&e, &chars_of("wv")) {
        "audio/x-wavpack"
    } else if chars_eq(&e, &chars_of("mpc")) {
        "audio/x-musepack"
    } else if chars_eq(&e, &chars_of("ape")) {
        "audio/x-ape"
    } else {
        "audio/mpeg"
    };
    string_of(&chars_of(t))
}

/// The file name a download is offered under: the last segment of the path.
pub fn safe_filename(path: &str) -> (res: String)
    ensures
        res@ == after_last(path@, '/'),
{
    string_of(&after_last_exec(&chars_of(path), '/'))
}

/// XML escaping of attribute values (the five predefined entities).
pub fn xml_escape(s: &str) -> (res: String)
    ensures
        res@ == escape(s@),
{
    crate::xml::esc(s)
}

// ── Answers ─────────────────────────────────────────────────────────────────

/// Whether the `f` parameter asks for XML (anything else is JSON).
pub fn wants_xml(f: Option<&str>) -> (res: bool)
    ensures
        res == (opt_str_chars(f) == Some("xml"@)),
{
    match f {
        Some(v) => chars_eq(&chars_of(v), &chars_of("xml")),
        None => false,
    }
}

/// The opening of every XML answer with the given status.
pub open spec fn xml_envelope_start(status: Seq<char>) -> Seq<char> {
    "<?xml version=\"1.0\" encoding=\"UTF-8\"?><subsonic-response xmlns=\"http://subsonic.org/restapi\" status=\""@
        + status + "\" version=\""@ + API_VERSION@ + "\">"@
}

/// The XML answer of a success carrying `inner`.
pub fn ok_xml_body(inner: &str) -> (res: String)
    ensures
        res@ == xml_envelope_start("ok"@) + inner@ + "</subsonic-response>"@,
{
    let mut out = chars_of(
        "<?xml version=\"1.0\" encoding=\"UTF-8\"?><subsonic-response xmlns=\"http://subsonic.org/restapi\" status=\"",
    );
    extend_chars(&mut out, &chars_of("ok"));
    extend_chars(&mut out, &chars_of("\" version=\""));
    extend_chars(&mut out, &chars_of(API_VERSION));
    extend_chars(&mut out, &chars_of("\">"));
    extend_chars(&mut out, &chars_of(inner));
    extend_chars(&mut out, &chars_of("</subsonic-response>"));
    string_of(&out)
}

/// The XML answer of an error (the message is written as it is).
pub fn error_xml_body(code: u32, message: &str) -> (res: String)
    ensures
        res@ == xml_envelope_start("failed"@) + "<error code=\""@ + dec(code as nat) + "\" message=\""@
            + message@ + "\"/></subsonic-response>"@,
{
    let mut out = chars_of(
        "<?xml version=\"1.0\" encoding=\"UTF-8\"?><subsonic-response xmlns=\"http://subsonic.org/restapi\" status=\"",
    );
    extend_chars(&mut out, &chars_of("failed"));
    extend_chars(&mut out, &chars_of("\" version=\""));
    extend_chars(&mut out, &chars_of(API_VERSION));
    extend_chars(&mut out, &chars_of("\">"));
    extend_chars(&mut out, &chars_of("<error code=\""));
    extend_chars(&mut out, &crate::codec::dec_chars(code as u64));
    extend_chars(&mut out, &chars_of("\" message=\""));
    extend_chars(&mut out, &chars_of(message));
    extend_chars(&mut out, &chars_of("\"/></subsonic-response>"));
    string_of(&out)
}

// ── Handler parameters ──────────────────────────────────────────────────────

/// Whether checking these credentials can proceed without cutting a
/// character of a hex-encoded password.
pub open spec fn auth_safe(
    username: Seq<char>,
    u: Option<Seq<char>>,
    p: Option<Seq<char>>,
    t: Option<Seq<char>>,
    s: Option<Seq<char>>,
) -> bool {
    reads_hex_password(username, u, p, t, s) ==> pairs_on_boundaries(strip_prefix(p->0, "enc:"@)->0)
}

/// The text of an optional owned string, borrowed.
fn opt_str(o: &Option<String>) -> (res: Option<&str>)
    ensures
        opt_str_chars(res) == opt_chars(*o),
{
    match o {
        Some(v) => Some(v.as_str()),
        None => None,
    }
}

/// The credentials and answer format every request carries.
pub struct CommonParams {
    pub u: Option<String>,
    pub p: Option<String>,
    pub t: Option<String>,
    pub s: Option<String>,
    pub f: Option<String>,
}

impl CommonParams {
    /// Whether the request's credentials are the configured user's.
    pub fn check_auth(&self, username: &str, password: &str) -> (res: bool)
        requires
            auth_safe(username@, opt_chars(self.u), opt_chars(self.p), opt_chars(self.t), opt_chars(self.s)),
        ensures
            res == check_auth_spec(
                username@,
                password@,
                opt_chars(self.u),
                opt_chars(self.p),
                opt_chars(self.t),
                opt_chars(self.s),
            ),
    {
        check_auth(
            username,
            password,
            opt_str(&self.u),
            opt_str(&self.p),
            opt_str(&self.t),
            opt_str(&self.s),
        )
    }

    /// Whether the answer is to be XML.
    pub fn wants_xml(&self) -> (res: bool)
        ensures
            res == (opt_chars(self.f) == Some("xml"@)),
    {
        wants_xml(opt_str(&self.f))
    }
}

/// A request naming one item by id.
pub struct IdParam {
    pub u: Option<String>,
    pub p: Option<String>,
    pub t: Option<String>,
    pub s: Option<String>,
    pub f: Option<String>,
    pub id: Option<String>,
}

impl IdParam {
    /// Whether the request's credentials are the configured user's.
    pub fn check_auth(&self, username: &str, password: &str) -> (res: bool)
        requires
            auth_safe(username@, opt_chars(self.u), opt_chars(self.p), opt_chars(self.t), opt_chars(self.s)),
        ensures
            res == check_auth_spec(
                username@,
                password@,
                opt_chars(self.u),
                opt_chars(self.p),
                opt_chars(self.t),
                opt_chars(self.s),
            ),
    {
        check_auth(
            username,
            password,
            opt_str(&self.u),
            opt_str(&self.p),
            opt_str(&self.t),
            opt_str(&self.s),
        )
    }

    /// Whether the answer is to be XML.
    pub fn wants_xml(&self) -> (res: bool)
        ensures
            res == (opt_chars(self.f) == Some("xml"@)),
    {
        wants_xml(opt_str(&self.f))
    }
}

/// A `search2`/`search3` request.
pub struct SearchParams {
    pub u: Option<String>,
    pub p: Option<String>,
    pub t: Option<String>,
    pub s: Option<String>,
    pub f: Option<String>,
    pub query: Option<String>,
    pub artist_count: Option<i64>,
    pub album_count: Option<i64>,
    pub song_count: Option<i64>,
    pub artist_offset: Option<i64>,
    pub album_offset: Option<i64>,
    pub song_offset: Option<i64>,
}

impl SearchParams {
    /// Whether the request's credentials are the configured user's.
    pub fn check_auth(&self, username: &str, password: &str) -> (res: bool)
        requires
            auth_safe(username@, opt_chars(self.u), opt_chars(self.p), opt_chars(self.t), opt_chars(self.s)),
        ensures
            res == check_auth_spec(
                username@,
                password@,
                opt_chars(self.u),
                opt_chars(self.p),
                opt_chars(self.t),
                opt_chars(self.s),
            ),
    {
        check_auth(
            username,
            password,
            opt_str(&self.u),
            opt_str(&self.p),
            opt_str(&self.t),
            opt_str(&self.s),
        )
    }

    /// Whether the answer is to be XML.
    pub fn wants_xml(&self) -> (res: bool)
        ensures
            res == (opt_chars(self.f) == Some("xml"@)),
    {
        wants_xml(opt_str(&self.f))
    }
}

/// A `getAlbumList`/`getAlbumList2` request.
pub struct AlbumListParams {
    pub u: Option<String>,
    pub p: Option<String>,
    pub t: Option<String>,
    pub s: Option<String>,
    pub f: Option<String>,
    pub list_type: Option<String>,
    pub size: Option<i64>,
    pub offset: Option<i64>,
    pub from_year: Option<i64>,
    pub to_year: Option<i64>,
}

impl AlbumListParams {
    /// Whether the request's credentials are the configured user's.
    pub fn check_auth(&self, username: &str, password: &str) -> (res: bool)
        requires
            auth_safe(username@, opt_chars(self.u), opt_chars(self.p), opt_chars(self.t), opt_chars(self.s)),
        ensures
            res == check_auth_spec(
                username@,
                password@,
                opt_chars(self.u),
                opt_chars(self.p),
                opt_chars(self.t),
                opt_chars(self.s),
            ),
    {
        check_auth(
            username,
            password,
            opt_str(&self.u),
            opt_str(&self.p),
            opt_str(&self.t),
            opt_str(&self.s),
        )
    }

    /// Whether the answer is to be XML.
    pub fn wants_xml(&self) -> (res: bool)
        ensures
            res == (opt_chars(self.f) == Some("xml"@)),
    {
        wants_xml(opt_str(&self.f))
    }
}

/// A `getArtistInfo` request.
pub struct ArtistInfoParams {
    pub u: Option<String>,
    pub p: Option<String>,
    pub t: Option<String>,
    pub s: Option<String>,
    pub f: Option<String>,
    pub id: Option<String>,
    pub count: Option<i64>,
}

impl ArtistInfoParams {
    /// Whether the request's credentials are the configured user's.
    pub fn check_auth(&self, username: &str, password: &str) -> (res: bool)
        requires
            auth_safe(username@, opt_chars(self.u), opt_chars(self.p), opt_chars(self.t), opt_chars(self.s)),
        ensures
            res == check_auth_spec(
                username@,
                password@,
                opt_chars(self.u),
                opt_chars(self.p),
                opt_chars(self.t),
                opt_chars(self.s),
            ),
    {
        check_auth(
            username,
            password,
            opt_str(&self.u),
            opt_str(&self.p),
            opt_str(&self.t),
            opt_str(&self.s),
        )
    }

    /// Whether the answer is to be XML.
    pub fn wants_xml(&self) -> (res: bool)
        ensures
            res == (opt_chars(self.f) == Some("xml"@)),
    {
        wants_xml(opt_str(&self.f))
    }
}

/// A `getTopSongs` request.
pub struct TopSongsParams {
    pub u: Option<String>,
    pub p: Option<String>,
    pub t: Option<String>,
    pub s: Option<String>,
    pub f: Option<String>,
    pub artist: Option<String>,
    pub count: Option<i64>,
}

impl TopSongsParams {
    /// Whether the request's credentials are the configured user's.
    pub fn check_auth(&self, username: &str, password: &str) -> (res: bool)
        requires
            auth_safe(username@, opt_chars(self.u), opt_chars(self.p), opt_chars(self.t), opt_chars(self.s)),
        ensures
            res == check_auth_spec(
                username@,
                password@,
                opt_chars(self.u),
                opt_chars(self.p),
                opt_chars(self.t),
                opt_chars(self.s),
            ),
    {
        check_auth(
            username,
            password,
            opt_str(&self.u),
            opt_str(&self.p),
            opt_str(&self.t),
            opt_str(&self.s),
        )
    }

    /// Whether the answer is to be XML.
    pub fn wants_xml(&self) -> (res: bool)
        ensures
            res == (opt_chars(self.f) == Some("xml"@)),
    {
        wants_xml(opt_str(&self.f))
    }
}

/// A `getLyrics` request.
pub struct LyricsParams {
    pub u: Option<String>,
    pub p: Option<String>,
    pub t: Option<String>,
    pub s: Option<String>,
    pub f: Option<String>,
    pub id: Option<String>,
    pub artist: Option<String>,
    pub title: Option<String>,
}

impl LyricsParams {
    /// Whether the request's credentials are the configured user's.
    pub fn check_auth(&self, username: &str, password: &str) -> (res: bool)
        requires
            auth_safe(username@, opt_chars(self.u), opt_chars(self.p), opt_chars(self.t), opt_chars(self.s)),
        ensures
            res == check_auth_spec(
                username@,
                password@,
                opt_chars(self.u),
                opt_chars(self.p),
                opt_chars(self.t),
                opt_chars(self.s),
            ),
    {
        check_auth(
            username,
            password,
            opt_str(&self.u),
            opt_str(&self.p),
            opt_str(&self.t),
            opt_str(&self.s),
        )
    }

    /// Whether the answer is to be XML.
    pub fn wants_xml(&self) -> (res: bool)
        ensures
            res == (opt_chars(self.f) == Some("xml"@)),
    {
        wants_xml(opt_str(&self.f))
    }
}

/// A `getRandomSongs` request.
pub struct RandomSongsParams {
    pub u: Option<String>,
    pub p: Option<String>,
    pub t: Option<String>,
    pub s: Option<String>,
    pub f: Option<String>,
    pub size: Option<i64>,
    pub from_year: Option<i64>,
    pub to_year: Option<i64>,
    pub genre: Option<String>,
}

impl RandomSongsParams {
    /// Whether the request's credentials are the configured user's.
    pub fn check_auth(&self, username: &str, password: &str) -> (res: bool)
        requires
            auth_safe(username@, opt_chars(self.u), opt_chars(self.p), opt_chars(self.t), opt_chars(self.s)),
        ensures
            res == check_auth_spec(
                username@,
                password@,
                opt_chars(self.u),
                opt_chars(self.p),
                opt_chars(self.t),
                opt_chars(self.s),
            ),
    {
        check_auth(
            username,
            password,
            opt_str(&self.u),
            opt_str(&self.p),
            opt_str(&self.t),
            opt_str(&self.s),
        )
    }

    /// Whether the answer is to be XML.
    pub fn wants_xml(&self) -> (res: bool)
        ensures
            res == (opt_chars(self.f) == Some("xml"@)),
    {
        wants_xml(opt_str(&self.f))
    }
}

/// A `scrobble` request.
pub struct ScrobbleParams {
    pub u: Option<String>,
    pub p: Option<String>,
    pub t: Option<String>,
    pub s: Option<String>,
    pub f: Option<String>,
    pub id: Option<String>,
    pub submission: Option<bool>,
}

impl ScrobbleParams {
    /// Whether the request's credentials are the configured user's.
    pub fn check_auth(&self, username: &str, password: &str) -> (res: bool)
        requires
            auth_safe(username@, opt_chars(self.u), opt_chars(self.p), opt_chars(self.t), opt_chars(self.s)),
        ensures
            res == check_auth_spec(
                username@,
                password@,
                opt_chars(self.u),
                opt_chars(self.p),
                opt_chars(self.t),
                opt_chars(self.s),
            ),
    {
        check_auth(
            username,
            password,
            opt_str(&self.u),
            opt_str(&self.p),
            opt_str(&self.t),
            opt_str(&self.s),
        )
    }

    /// Whether the answer is to be XML.
    pub fn wants_xml(&self) -> (res: bool)
        ensures
            res == (opt_chars(self.f) == Some("xml"@)),
    {
        wants_xml(opt_str(&self.f))
    }
}

/// A `star`/`unstar` request.
pub struct StarParams {
    pub u: Option<String>,
    pub p: Option<String>,
    pub t: Option<String>,
    pub s: Option<String>,
    pub f: Option<String>,
    pub id: Option<String>,
    pub album_id: Option<String>,
    pub artist_id: Option<String>,
}

impl StarParams {
    /// Whether the request's credentials are the configured user's.
    pub fn check_auth(&self, username: &str, password: &str) -> (res: bool)
        requires
            auth_safe(username@, opt_chars(self.u), opt_chars(self.p), opt_chars(self.t), opt_chars(self.s)),
        ensures
            res == check_auth_spec(
                username@,
                password@,
                opt_chars(self.u),
                opt_chars(self.p),
                opt_chars(self.t),
                opt_chars(self.s),
            ),
    {
        check_auth(
            username,
            password,
            opt_str(&self.u),
            opt_str(&self.p),
            opt_str(&self.t),
            opt_str(&self.s),
        )
    }

    /// Whether the answer is to be XML.
    pub fn wants_xml(&self) -> (res: bool)
        ensures
            res == (opt_chars(self.f) == Some("xml"@)),
    {
        wants_xml(opt_str(&self.f))
    }
}

/// A `getSongsByGenre` request.
pub struct SongsByGenreParams {
    pub u: Option<String>,
    pub p: Option<String>,
    pub t: Option<String>,
    pub s: Option<String>,
    pub f: Option<String>,
    pub genre: Option<String>,
    pub count: Option<i64>,
    pub offset: Option<i64>,
}

impl SongsByGenreParams {
    /// Whether the request's credentials are the configured user's.
    pub fn check_auth(&self, username: &str, password: &str) -> (res: bool)
        requires
            auth_safe(username@, opt_chars(self.u), opt_chars(self.p), opt_chars(self.t), opt_chars(self.s)),
        ensures
            res == check_auth_spec(
                username@,
                password@,
                opt_chars(self.u),
                opt_chars(self.p),
                opt_chars(self.t),
                opt_chars(self.s),
            ),
    {
        check_auth(
            username,
            password,
            opt_str(&self.u),
            opt_str(&self.p),
            opt_str(&self.t),
            opt_str(&self.s),
        )
    }

    /// Whether the answer is to be XML.
    pub fn wants_xml(&self) -> (res: bool)
        ensures
            res == (opt_chars(self.f) == Some("xml"@)),
    {
        wants_xml(opt_str(&self.f))
    }
}

// ── Now playing ─────────────────────────────────────────────────────────────

/// What the player is playing, as the server last heard of it.
#[derive(Debug, Clone)]
pub struct NowPlayingInfo {
    pub track_id: Option<String>,
    pub title: String,
    pub artist: String,
    pub album: String,
    pub path: String,
    pub elapsed_ms: u64,
    pub length_ms: u64,
    pub album_id: Option<String>,
    pub artist_id: Option<String>,
    pub album_art: Option<String>,
    pub bitrate: u32,
    pub year: i32,
    pub track_number: i32,
    pub username: String,
}

/// A copy of an optional string.
fn copy_opt(o: &Option<String>) -> (res: Option<String>)
    ensures
        res == *o,
{
    match o {
        Some(v) => Some(v.clone()),
        None => None,
    }
}

impl NowPlayingInfo {
    /// A copy of the snapshot.
    pub fn snapshot(&self) -> (res: NowPlayingInfo)
        ensures
            res == *self,
    {
        NowPlayingInfo {
            track_id: copy_opt(&self.track_id),
            title: self.title.clone(),
            artist: self.artist.clone(),
            album: self.album.clone(),
            path: self.path.clone(),
            elapsed_ms: self.elapsed_ms,
            length_ms: self.length_ms,
            album_id: copy_opt(&self.album_id),
            artist_id: copy_opt(&self.artist_id),
            album_art: copy_opt(&self.album_art),
            bitrate: self.bitrate,
            year: self.year,
            track_number: self.track_number,
            username: self.username.clone(),
        }
    }
}

/// Records what is playing now (nothing, with `None`) in the slot the
/// server reads it from.
pub fn set_now_playing(slot: &mut Option<NowPlayingInfo>, info: Option<NowPlayingInfo>)
    ensures
        *final(slot) == info,
{
    *slot = info;
}

/// The latest now-playing snapshot of the slot.
pub fn get_now_playing(slot: &Option<NowPlayingInfo>) -> (res: Option<NowPlayingInfo>)
    ensures
        res == *slot,
{
    match slot {
        Some(info) => Some(info.snapshot()),
        None => None,
    }
}

/// The text of an optional string, empty where there is none.
pub open spec fn text_or_empty(o: Option<String>) -> Seq<char> {
    match o {
        Some(v) => v@,
        None => Seq::<char>::empty(),
    }
}

/// The `<nowPlaying>` element of the `getNowPlaying` answer.
pub open spec fn now_playing_xml_spec(slot: Option<NowPlayingInfo>) -> Seq<char> {
    "<nowPlaying>"@ + match slot {
        Some(i) => "<entry id=\""@ + escape(text_or_empty(i.track_id)) + "\" title=\""@ + escape(
            i.title@,
        ) + "\" artist=\""@ + escape(i.artist@) + "\" album=\""@ + escape(i.album@)
            + "\" duration=\""@ + dec((i.length_ms / 1000) as nat) + "\" username=\""@ + escape(
            i.username@,
        ) + "\" minutesAgo=\"0\" playerId=\"1\"/>"@,
        None => Seq::<char>::empty(),
    } + "</nowPlaying>"@
}

/// The `<nowPlaying>` element for the slot's snapshot.
pub fn now_playing_xml(slot: &Option<NowPlayingInfo>) -> (res: String)
    ensures
        res@ == now_playing_xml_spec(*slot),
{
    let mut out = chars_of("<nowPlaying>");
    if let Some(i) = slot {
        extend_chars(&mut out, &chars_of("<entry id=\""));
        match &i.track_id {
            Some(id) => extend_chars(&mut out, &escape_chars(&chars_of(id.as_str()))),
            None => {
                assert(escape(Seq::<char>::empty()) =~= Seq::<char>::empty());
            },
        }
        extend_chars(&mut out, &chars_of("\" title=\""));
        extend_chars(&mut out, &escape_chars(&chars_of(i.title.as_str())));
        extend_chars(&mut out, &chars_of("\" artist=\""));
        extend_chars(&mut out, &escape_chars(&chars_of(i.artist.as_str())));
        extend_chars(&mut out, &chars_of("\" album=\""));
        extend_chars(&mut out, &escape_chars(&chars_of(i.album.as_str())));
        extend_chars(&mut out, &chars_of("\" duration=\""));
        extend_chars(&mut out, &crate::codec::dec_chars(i.length_ms / 1000));
        extend_chars(&mut out, &chars_of("\" username=\""));
        extend_chars(&mut out, &escape_chars(&chars_of(i.username.as_str())));
        extend_chars(&mut out, &chars_of("\" minutesAgo=\"0\" playerId=\"1\"/>"));
    }
    extend_chars(&mut out, &chars_of("</nowPlaying>"));
    string_of(&out)
}

// ── Streaming ───────────────────────────────────────────────────────────────

/// The bytes a `Range` value asks of a file of `file_size` bytes: `bytes=`,
/// a start (0 where it does not read), `-`, and an end (the last byte where
/// it is absent, empty or does not read), capped at the last byte; none
/// where the start is past the end, and none without `bytes=`.
pub open spec fn stream_range_spec(value: Seq<char>, file_size: u64) -> Option<(nat, nat)> {
    match strip_prefix(value, "bytes="@) {
        None => None,
        Some(r) => {
            let last: nat = if file_size > 0 {
                (file_size - 1) as nat
            } else {
                0
            };
            let start: nat = match parse_unsigned(before_first(r, '-'), u64::MAX as nat) {
                Some(v) => v,
                None => 0,
            };
            let asked: nat = match after_first(r, '-') {
                Some(e) => if e.len() > 0 {
                    match parse_unsigned(e, u64::MAX as nat) {
                        Some(v) => v,
                        None => last,
                    }
                } else {
                    last
                },
                None => last,
            };
            let end: nat = if asked < last {
                asked
            } else {
                last
            };
            if start <= end {
                Some((start, end))
            } else {
                None
            }
        },
    }
}

proof fn lemma_dec_reads_back(n: nat)
    ensures
        dec(n).len() > 0,
        forall|i: int| 0 <= i < dec(n).len() ==> is_dec_digit(#[trigger] dec(n)[i]),
        dec_value(dec(n)) == n,
    decreases n,
{
    assert(dec_digit(n % 10) as u32 == n % 10 + 48);
    if n < 10 {
        assert(dec(n) =~= seq![dec_digit(n)]);
        assert(seq![dec_digit(n)].drop_last() =~= Seq::<char>::empty());
        assert(dec_value(Seq::<char>::empty()) == 0);
        assert(dec_value(dec(n)) == dec_value(Seq::<char>::empty()) * 10 + ((dec_digit(n) as u32) - 48) as nat);
    } else {
        lemma_dec_reads_back(n / 10);
        let d = dec(n / 10);
        assert(dec(n) == d.push(dec_digit(n % 10)));
        assert(d.push(dec_digit(n % 10)).drop_last() =~= d);
        assert(dec_value(dec(n)) == dec_value(d) * 10 + ((dec_digit(n % 10) as u32) - 48) as nat);
        assert((n / 10) * 10 + n % 10 == n);
        assert forall|i: int| 0 <= i < dec(n).len() implies is_dec_digit(#[trigger] dec(n)[i]) by {
            if i < d.len() {
                assert(dec(n)[i] == d[i]);
            }
        }
    }
}

proof fn lemma_digits_parse(n: nat, max: nat)
    requires
        n <= max,
    ensures
        parse_unsigned(dec(n), max) == Some(n),
        find_char(dec(n), '-') is None,
{
    lemma_dec_reads_back(n);
    assert(dec(n)[0] != '+');
    assert(unsigned_digits(dec(n)) == dec(n));
    lemma_no_dash(dec(n));
}

proof fn lemma_no_dash(s: Seq<char>)
    requires
        forall|i: int| 0 <= i < s.len() ==> is_dec_digit(#[trigger] s[i]),
    ensures
        find_char(s, '-') is None,
    decreases s.len(),
{
    if s.len() > 0 {
        assert(s[0] != '-');
        assert forall|i: int| 0 <= i < s.drop_first().len() implies is_dec_digit(#[trigger] s.drop_first()[i]) by {
            assert(s.drop_first()[i] == s[i + 1]);
        }
        lemma_no_dash(s.drop_first());
    }
}

proof fn lemma_find_dash_after_digits(a: Seq<char>, e: Seq<char>)
    requires
        find_char(a, '-') is None,
    ensures
        find_char(a + seq!['-'] + e, '-') == Some(a.len()),
    decreases a.len(),
{
    let x = a + seq!['-'] + e;
    if a.len() == 0 {
        assert(x[0] == '-');
    } else {
        assert(a[0] != '-');
        assert(x.drop_first() =~= a.drop_first() + seq!['-'] + e);
        lemma_find_dash_after_digits(a.drop_first(), e);
    }
}

/// A range `bytes=s-` or `bytes=s-e` with decimal bounds asks for the bytes
/// from `s` to `e`, or to the last byte of the file where there is no `e`
/// (an open-ended range runs to the end), with the end capped at the last
/// byte; it is none only where `s` lies past that end.
#[verifier::rlimit(40)]
pub proof fn law_range_runs_to_asked_end(s: nat, e: Option<nat>, file_size: u64)
    requires
        s <= u64::MAX,
        e matches Some(v) ==> v <= u64::MAX,
    ensures
        ({
            let value = "bytes="@ + dec(s) + seq!['-'] + match e {
                Some(v) => dec(v),
                None => Seq::<char>::empty(),
            };
            let last: nat = if file_size > 0 { (file_size - 1) as nat } else { 0 };
            let end: nat = match e {
                Some(v) => if v < last { v } else { last },
                None => last,
            };
            stream_range_spec(value, file_size) == if s <= end { Some((s, end)) } else { None::<(nat, nat)> }
        }),
        s < file_size ==> stream_range_spec("bytes="@ + dec(s) + seq!['-'], file_size) == Some((s, (file_size - 1) as nat)),
{
    reveal_strlit("bytes=");
    let tail = match e {
        Some(v) => dec(v),
        None => Seq::<char>::empty(),
    };
    let value = "bytes="@ + dec(s) + seq!['-'] + tail;
    let r = dec(s) + seq!['-'] + tail;
    assert("bytes="@.is_prefix_of(value));
    assert(value.skip(6) =~= r);
    lemma_digits_parse(s, u64::MAX as nat);
    lemma_find_dash_after_digits(dec(s), tail);
    assert(r.take(dec(s).len() as int) =~= dec(s));
    assert(r.skip(dec(s).len() + 1 as int) =~= tail);
    if let Some(v) = e {
        lemma_digits_parse(v, u64::MAX as nat);
        lemma_dec_reads_back(v);
    }
    let open = "bytes="@ + dec(s) + seq!['-'];
    assert(open =~= "bytes="@ + dec(s) + seq!['-'] + Seq::<char>::empty());
    let r2 = dec(s) + seq!['-'] + Seq::<char>::empty();
    assert(open.skip(6) =~= r2);
    lemma_find_dash_after_digits(dec(s), Seq::<char>::empty());
    assert(r2.take(dec(s).len() as int) =~= dec(s));
    assert(r2.skip(dec(s).len() + 1 as int) =~= Seq::<char>::empty());
}

/// The byte range a `Range` header asks of a file ([`stream_range_spec`]).
pub fn stream_range(value: &str, file_size: u64) -> (res: Option<(u64, u64)>)
    ensures
        match res {
            Some((a, b)) => stream_range_spec(value@, file_size) == Some((a as nat, b as nat)),
            None => stream_range_spec(value@, file_size) is None,
        },
{
    let v = chars_of(value);
    proof {
        reveal_strlit("bytes=");
    }
    let r = match strip_prefix_chars(&v, &chars_of("bytes=")) {
        Some(r) => r,
        None => return None,
    };
    let last: u64 = if file_size > 0 {
        file_size - 1
    } else {
        0
    };
    let (first, second) = match find_char_exec(&r, '-') {
        Some(i) => {
            assert(i < r.len());
            (slice_of(&r, 0, i), Some(slice_of(&r, i + 1, r.len())))
        },
        None => {
            assert(r@.subrange(0, r@.len() as int) =~= r@);
            (slice_of(&r, 0, r.len()), None)
        },
    };
    let start = match parse_unsigned_chars(&first, u64::MAX) {
        Some(x) => x,
        None => 0,
    };
    let asked = match second {
        Some(e) => {
            if e.len() > 0 {
                match parse_unsigned_chars(&e, u64::MAX) {
                    Some(x) => x,
                    None => last,
                }
            } else {
                last
            }
        },
        None => last,
    };
    let end = if asked < last {
        asked
    } else {
        last
    };
    if start <= end {
        Some((start, end))
    } else {
        None
    }
}

/// The `Content-Range` value of a partial answer of `n` bytes from `start`
/// of a file of `file_size` bytes.
pub fn content_range_value(start: u64, n: u64, file_size: u64) -> (res: String)
    requires
        1 <= start + n <= u64::MAX + 1,
    ensures
        res@ == "bytes "@ + dec(start as nat) + seq!['-'] + dec((start + n - 1) as nat) + seq!['/']
            + dec(file_size as nat),
{
    let mut out = chars_of("bytes ");
    extend_chars(&mut out, &dec_chars(start));
    out.push('-');
    let end: u64 = if n == 0 {
        start - 1
    } else {
        start + (n - 1)
    };
    extend_chars(&mut out, &dec_chars(end));
    out.push('/');
    extend_chars(&mut out, &dec_chars(file_size));
    string_of(&out)
}

// ── Cover art ───────────────────────────────────────────────────────────────

/// What a `getCoverArt` id names.
pub enum ArtRef {
    /// `al-{id}`: an album.
    Album(String),
    /// `ar-{id}`: an artist.
    Artist(String),
    /// Anything else: a track.
    Track(String),
}

/// What a cover-art id names: `al-` an album, `ar-` an artist, anything else
/// a track.
pub fn art_ref(id: &str) -> (res: ArtRef)
    ensures
        match res {
            ArtRef::Album(a) => strip_prefix(id@, "al-"@) == Some(a@),
            ArtRef::Artist(a) => strip_prefix(id@, "al-"@) is None && strip_prefix(id@, "ar-"@)
                == Some(a@),
            ArtRef::Track(t) => strip_prefix(id@, "al-"@) is None && strip_prefix(id@, "ar-"@) is None
                && t@ == id@,
        },
{
    let c = chars_of(id);
    match strip_prefix_chars(&c, &chars_of("al-")) {
        Some(a) => ArtRef::Album(string_of(&a)),
        None => match strip_prefix_chars(&c, &chars_of("ar-")) {
            Some(a) => ArtRef::Artist(string_of(&a)),
            None => ArtRef::Track(string_of(&c)),
        },
    }
}

/// Where stored art is: a remote image to proxy, or a local file.
pub enum ArtLocation {
    Remote(String),
    File(String),
}

/// Where stored art is: `http://` and `https://` values are remote; absolute
/// paths are files as they are; bare names are files of the covers
/// directory under `home`.
pub fn art_location(art: &str, home: &str) -> (res: ArtLocation)
    ensures
        match res {
            ArtLocation::Remote(u) => ("http://"@.is_prefix_of(art@) || "https://"@.is_prefix_of(art@))
                && u@ == art@,
            ArtLocation::File(p) => !("http://"@.is_prefix_of(art@) || "https://"@.is_prefix_of(art@))
                && p@ == if art@.len() > 0 && art@[0] == '/' {
                art@
            } else {
                home@ + "/.config/rockbox.org/covers/"@ + art@
            },
        },
{
    let a = chars_of(art);
    if starts_with(&a, &chars_of("http://")) || starts_with(&a, &chars_of("https://")) {
        return ArtLocation::Remote(string_of(&a));
    }
    if a.len() > 0 && a[0] == '/' {
        ArtLocation::File(string_of(&a))
    } else {
        let mut p = chars_of(home);
        extend_chars(&mut p, &chars_of("/.config/rockbox.org/covers/"));
        extend_chars(&mut p, &a);
        ArtLocation::File(string_of(&p))
    }
}

/// The media type a local cover file is served with, by its extension.
pub fn art_mime(path: &str) -> (res: String)
    ensures
        res@ == guessed_mime(path@),
{
    guess_mime(path)
}

/// The media type a proxied cover is served with: the remote one, JPEG
/// where it gave none.
pub fn remote_art_mime(content_type: Option<&str>) -> (res: String)
    ensures
        res@ == match content_type {
            Some(t) => t@,
            None => "image/jpeg"@,
        },
{
    match content_type {
        Some(t) => string_of(&chars_of(t)),
        None => string_of(&chars_of("image/jpeg")),
    }
}

// ── Laws ────────────────────────────────────────────────────────────────────

/// The server accepts the token a client makes of the password with any
/// salt ([`compute_token`] on the client side), whatever plain password
/// comes along.
pub proof fn law_client_token_accepted(
    username: Seq<char>,
    password: Seq<char>,
    salt: Seq<char>,
    p: Option<Seq<char>>,
)
    ensures
        check_auth_spec(username, password, Some(username), p, Some(token_of(password, salt)), Some(salt)),
{
}

proof fn lemma_hex_pairs_of_hex(b: Seq<u8>)
    ensures
        hex_pairs(ascii_bytes(hex_lower(b))) == Some(b),
        forall|i: int| 0 <= i < hex_lower(b).len() ==> (#[trigger] hex_lower(b)[i] as u32) < 128,
    decreases b.len(),
{
    lemma_hex_lower_len(b);
    if b.len() > 0 {
        let t = b.drop_last();
        let x = b.last();
        lemma_hex_pairs_of_hex(t);
        lemma_hex_lower_len(t);
        crate::codec::lemma_hex_lower_push(t, x);
        assert(t.push(x) =~= b);
        let d1 = hex_digit_lower(x / 16);
        let d2 = hex_digit_lower(x % 16);
        let h = hex_lower(b);
        let ht = hex_lower(t);
        assert(h == ht + seq![d1, d2]);
        let ab = ascii_bytes(h);
        assert(ab.take(ab.len() - 2) =~= ascii_bytes(ht));
        assert(ab[ab.len() - 2] == d1 as u8);
        assert(ab[ab.len() - 1] == d2 as u8);
        assert(hex_byte_value(d1 as u8) == Some(x / 16)) by {
            assert(x / 16 < 16);
        }
        assert(hex_byte_value(d2 as u8) == Some(x % 16)) by {
            assert(x % 16 < 16);
        }
        assert((d1 as u8) != 43u8);
        assert(((16 * (x / 16) + x % 16) as u8) == x);
        assert(t.push(x) == b);
        assert forall|i: int| 0 <= i < h.len() implies (#[trigger] h[i] as u32) < 128 by {
            if i < ht.len() {
                assert(h[i] == ht[i]);
            } else if i == ht.len() {
                assert(h[i] == d1);
            } else {
                assert(h[i] == d2);
            }
        }
    } else {
        assert(ascii_bytes(hex_lower(b)) =~= Seq::<u8>::empty());
        assert(b =~= Seq::<u8>::empty());
    }
}

/// A password sent hex-encoded (`enc:` and the lower-case hex of its UTF-8
/// bytes) is the password: the server decodes it back, cutting no
/// character, and accepts it.
pub proof fn law_hex_password_accepted(username: Seq<char>, password: Seq<char>)
    ensures
        ({
            let p = "enc:"@ + hex_lower(encode_utf8(password));
            &&& plain_password(p) == password
            &&& pairs_on_boundaries(hex_lower(encode_utf8(password)))
            &&& check_auth_spec(username, password, Some(username), Some(p), None, None)
        }),
{
    reveal_strlit("enc:");
    let b = encode_utf8(password);
    let h = hex_lower(b);
    let p = "enc:"@ + h;
    assert("enc:"@.is_prefix_of(p));
    assert(p.skip(4) =~= h);
    lemma_hex_pairs_of_hex(b);
    lemma_hex_lower_len(b);
    assert(vstd::utf8::is_ascii_chars(h)) by {
        assert forall|i: int| 0 <= i < h.len() implies '\0' <= #[trigger] h[i] <= '\u{7f}' by {
            let c = hex_lower(b)[i];
            assert((c as u32) < 128);
            vstd::utf8::char_u32_cast(c, c as u32);
        }
    }
    vstd::utf8::is_ascii_chars_encode_utf8(h);
    assert(encode_utf8(h) =~= ascii_bytes(h));
    assert(encode_utf8(h).len() % 2 == 0);
    vstd::utf8::encode_utf8_valid_utf8(password);
    vstd::utf8::encode_utf8_decode_utf8(password);
    assert(hex_decode_spec(h) == Some(password));
    assert forall|i: int| 0 <= i < encode_utf8(h).len() && i % 2 == 0 implies !(128 <= #[trigger] encode_utf8(h)[i] < 192) by {
        let c = h[i];
        assert((c as u32) < 128);
    }
}


// ── Server start ────────────────────────────────────────────────────────────

/// The user name the server answers to where none is configured.
pub const DEFAULT_USERNAME: &'static str = "admin";

/// The port the server listens on where none is configured.
pub const DEFAULT_PORT: u16 = 4533;

/// How the Subsonic server runs.
pub struct SubsonicConfig {
    pub username: String,
    pub password: String,
    pub port: u16,
}

/// How the Subsonic server runs, from the configured user name, password
/// and port: none (the server stays off) without a non-empty password;
/// else the user name or `admin`, the password, and the port or 4533.
pub fn subsonic_config(username: Option<&str>, password: Option<&str>, port: Option<u16>) -> (res: Option<SubsonicConfig>)
    ensures
        res is None <==> (match password {
            Some(p) => p@.len() == 0,
            None => true,
        }),
        res matches Some(c) ==> {
            &&& c.username@ == (match username {
                Some(u) => u@,
                None => DEFAULT_USERNAME@,
            })
            &&& password matches Some(p) && c.password@ == p@
            &&& c.port == (match port {
                Some(n) => n,
                None => DEFAULT_PORT,
            })
        },
{
    let pw = match password {
        Some(p) => chars_of(p),
        None => return None,
    };
    if pw.len() == 0 {
        return None;
    }
    let user = match username {
        Some(u) => string_of(&chars_of(u)),
        None => string_of(&chars_of(DEFAULT_USERNAME)),
    };
    let port = match port {
        Some(n) => n,
        None => DEFAULT_PORT,
    };
    Some(SubsonicConfig { username: user, password: string_of(&pw), port })
}

} // verus!
