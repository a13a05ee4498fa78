//! The Subsonic (Navidrome) client: credentials in a base URL, request
//! URLs, the token, percent-encoding of browse keys, and the mapping of the
//! server's listings to entries.
use vstd::prelude::*;
use vstd::utf8::decode_utf8;
use vstd::utf8::encode_utf8;
use vstd::utf8::valid_utf8;

use crate::codec::dec;
use crate::codec::dec_chars;
use crate::codec::hex_lower;
use crate::codec::lower_hex;
use crate::codec::pct_decode;
use crate::codec::pct_decode_bytes;
use crate::codec::pct_encode;
use crate::codec::pct_encode_bytes;
use crate::codec::utf8_lossy;
use crate::outside::from_utf8_lossy;
use crate::outside::md5_digest;
use crate::outside::md5_of;
use crate::text::chars_of;
use crate::text::extend_chars;
use crate::text::find_char;
use crate::text::find_char_exec;
use crate::text::slice_of;
use crate::text::split;
use crate::text::split_chars;
use crate::text::starts_with;
use crate::text::string_of;

verus! {

/// One browsable item of a Subsonic server.
#[derive(Debug, Clone)]
pub struct NavidromeEntry {
    pub id: String,
    pub name: String,
    pub is_container: bool,
    pub stream_url: Option<String>,
}

/// An album of a Subsonic server.
#[derive(Debug, Clone)]
pub struct NavidromeAlbum {
    pub id: String,
    pub name: String,
    pub artist: String,
    pub artist_id: String,
    pub year: Option<u32>,
    pub cover_art: Option<String>,
    pub song_count: u32,
    pub duration: u32,
}

/// An artist of a Subsonic server.
#[derive(Debug, Clone)]
pub struct NavidromeArtist {
    pub id: String,
    pub name: String,
    pub cover_art: Option<String>,
    pub album_count: u32,
}

/// A genre of a Subsonic server.
#[derive(Debug, Clone)]
pub struct NavidromeGenre {
    pub name: String,
    pub song_count: u32,
    pub album_count: u32,
}

/// A playlist of a Subsonic server.
#[derive(Debug, Clone)]
pub struct NavidromePlaylist {
    pub id: String,
    pub name: String,
    pub comment: Option<String>,
    pub song_count: u32,
    pub cover_art: Option<String>,
}

/// A song of a Subsonic server.
#[derive(Debug, Clone)]
pub struct NavidromeSong {
    pub id: String,
    pub title: String,
    pub artist: String,
    pub artist_id: String,
    pub album: String,
    pub album_id: String,
    pub cover_art: Option<String>,
    pub duration: u32,
    pub track: Option<u32>,
    pub year: Option<u32>,
}

/// A song as a Subsonic listing describes it.
#[derive(Debug, Clone)]
pub struct SongEntry {
    pub id: String,
    pub title: String,
    pub artist: String,
    pub artist_id: String,
    pub album: String,
    pub album_id: String,
    pub cover_art: Option<String>,
    pub duration: u32,
    pub track: Option<u32>,
    pub year: Option<u32>,
}

/// A child of a music directory as a Subsonic listing describes it.
#[derive(Debug, Clone)]
pub struct DirectoryChild {
    pub id: String,
    pub title: Option<String>,
    pub name: Option<String>,
    pub is_dir: Option<bool>,
}

/// An artist of a Subsonic index.
#[derive(Debug, Clone)]
pub struct ArtistEntry {
    pub id: String,
    pub name: String,
}

/// The id of a music folder, which servers send as a number or a string;
/// any other JSON value is kept as its JSON text.
#[derive(Debug, Clone)]
pub enum FolderId {
    Number(u64),
    Text(String),
    Json(String),
}

/// A music folder as a Subsonic listing describes it.
#[derive(Debug, Clone)]
pub struct MusicFolder {
    pub id: FolderId,
    pub name: Option<String>,
}

// ── Spec model ──────────────────────────────────────────────────────────────

/// `s.trim_end_matches('/')`.
pub open spec fn trim_slashes(s: Seq<char>) -> Seq<char>
    decreases s.len(),
{
    if s.len() > 0 && s.last() == '/' {
        trim_slashes(s.drop_last())
    } else {
        s
    }
}

/// The value after `key` in the first `&`-separated part that starts with
/// `key`, unless that value is empty.
pub open spec fn first_param(parts: Seq<Seq<char>>, key: Seq<char>) -> Option<Seq<char>>
    decreases parts.len(),
{
    if parts.len() == 0 {
        None
    } else if key.is_prefix_of(parts[0]) {
        let v = parts[0].skip(key.len() as int);
        if v.len() == 0 {
            None
        } else {
            Some(v)
        }
    } else {
        first_param(parts.drop_first(), key)
    }
}

/// What `parse_base_url` makes of `http://host?nd_user=u&nd_token=t&nd_salt=s`.
pub open spec fn base_url_parts(url: Seq<char>) -> (
    Seq<char>,
    Option<Seq<char>>,
    Option<Seq<char>>,
    Option<Seq<char>>,
) {
    match find_char(url, '?') {
        Some(i) => {
            let parts = split(url.skip(i + 1 as int), '&');
            (
                url.take(i as int),
                first_param(parts, "nd_user="@),
                first_param(parts, "nd_token="@),
                first_param(parts, "nd_salt="@),
            )
        },
        None => (url, None, None, None),
    }
}

/// The Subsonic authentication parameters.
pub open spec fn auth_query(user: Seq<char>, token: Seq<char>, salt: Seq<char>) -> Seq<char> {
    "u="@ + user + "&t="@ + token + "&s="@ + salt + "&v=1.16.1&c=rockbox&f=json"@
}

/// `{base without trailing /}/rest/{endpoint}.view?{extra}{auth}`.
pub open spec fn rest_url_spec(
    base: Seq<char>,
    endpoint: Seq<char>,
    extra: Seq<char>,
    user: Seq<char>,
    token: Seq<char>,
    salt: Seq<char>,
) -> Seq<char> {
    trim_slashes(base) + "/rest/"@ + endpoint + ".view?"@ + extra + auth_query(user, token, salt)
}

/// The Subsonic token: the MD5 of password and salt, in lower-case hex.
pub open spec fn token_of(password: Seq<char>, salt: Seq<char>) -> Seq<char> {
    hex_lower(md5_of(encode_utf8(password + salt)))
}

/// A child's display name: its title, else its name, else its id.
pub open spec fn display_name_spec(c: DirectoryChild) -> Seq<char> {
    match c.title {
        Some(t) => t@,
        None => match c.name {
            Some(n) => n@,
            None => c.id@,
        },
    }
}

/// Percent-encoding with lower-case hex, keeping `A-Z a-z 0-9 - _ . ~`.
pub open spec fn percent_encode_spec(s: Seq<char>) -> Seq<char> {
    pct_encode(encode_utf8(s), false, false)
}

/// Percent-decoding followed by lossy UTF-8 decoding.
pub open spec fn percent_decode_spec(s: Seq<char>) -> Seq<char> {
    utf8_lossy(pct_decode(encode_utf8(s)))
}

/// The bytes of a string of ASCII characters.
pub open spec fn ascii_bytes(s: Seq<char>) -> Seq<u8> {
    Seq::new(s.len(), |i: int| s[i] as u8)
}

// ── Lemmas ──────────────────────────────────────────────────────────────────

proof fn lemma_first_param_at(parts: Seq<Seq<char>>, key: Seq<char>, j: int)
    requires
        0 <= j <= parts.len(),
        forall|i: int| 0 <= i < j ==> !key.is_prefix_of(#[trigger] parts[i]),
        j < parts.len() ==> key.is_prefix_of(parts[j]),
    ensures
        first_param(parts, key) == if j < parts.len() {
            let v = parts[j].skip(key.len() as int);
            if v.len() == 0 {
                None
            } else {
                Some(v)
            }
        } else {
            None::<Seq<char>>
        },
    decreases j,
{
    if j > 0 {
        let t = parts.drop_first();
        assert forall|i: int| 0 <= i < j - 1 implies !key.is_prefix_of(#[trigger] t[i]) by {
            assert(t[i] == parts[i + 1]);
        }
        lemma_first_param_at(t, key, j - 1);
    }
}

/// Percent-encoded text is ASCII, and its ASCII bytes percent-decode back to
/// exactly the bytes that were encoded.
pub proof fn lemma_pct_roundtrip_bytes(b: Seq<u8>, upper_hex: bool, keep_slash: bool)
    ensures
        forall|i: int|
            0 <= i < pct_encode(b, upper_hex, keep_slash).len() ==> (#[trigger] pct_encode(
                b,
                upper_hex,
                keep_slash,
            )[i] as u32) < 128,
        pct_decode(ascii_bytes(pct_encode(b, upper_hex, keep_slash))) == b,
    decreases b.len(),
{
    reveal_with_fuel(pct_decode, 2);
    if b.len() == 0 {
        assert(ascii_bytes(pct_encode(b, upper_hex, keep_slash)) =~= Seq::<u8>::empty());
    } else {
        let t = b.drop_first();
        lemma_pct_roundtrip_bytes(t, upper_hex, keep_slash);
        let e = pct_encode(b, upper_hex, keep_slash);
        let et = pct_encode(t, upper_hex, keep_slash);
        let x = b[0];
        let hi = x / 16;
        let lo = x % 16;
        if crate::codec::is_unreserved(x, keep_slash) {
            assert(e =~= seq![x as char] + et);
            let eb = ascii_bytes(e);
            assert(eb =~= seq![x] + ascii_bytes(et)) by {
                assert(eb[0] == ((x as char) as u8));
                assert(((x as char) as u8) == x);
            };
            assert(eb.drop_first() =~= ascii_bytes(et));
            assert(pct_decode(eb) =~= seq![x] + t);
            assert(b =~= seq![x] + t);
        } else {
            let d1 = if upper_hex {
                crate::codec::hex_digit_upper(hi)
            } else {
                crate::codec::hex_digit_lower(hi)
            };
            let d2 = if upper_hex {
                crate::codec::hex_digit_upper(lo)
            } else {
                crate::codec::hex_digit_lower(lo)
            };
            assert(e =~= seq!['%', d1, d2] + et);
            let eb = ascii_bytes(e);
            assert(eb =~= seq![37u8, d1 as u8, d2 as u8] + ascii_bytes(et));
            assert(crate::codec::hex_byte_value(d1 as u8) == Some(hi)) by {
                assert(hi < 16);
            };
            assert(crate::codec::hex_byte_value(d2 as u8) == Some(lo)) by {
                assert(lo < 16);
            };
            assert(eb.skip(3) =~= ascii_bytes(et));
            assert(((hi * 16 + lo) as u8) == x);
            assert(pct_decode(eb) =~= seq![x] + t);
            assert(b =~= seq![x] + t);
        }
    }
}

// ── Exec ────────────────────────────────────────────────────────────────────

/// `s.trim_end_matches('/')`.
pub fn trim_slashes_chars(s: &[char]) -> (res: Vec<char>)
    ensures
        res@ == trim_slashes(s@),
{
    let mut k = s.len();
    assert(s@.take(s.len() as int) =~= s@);
    while k > 0 && s[k - 1] == '/'
        invariant
            k <= s.len(),
            trim_slashes(s@) == trim_slashes(s@.take(k as int)),
        decreases k,
    {
        assert(s@.take(k as int).drop_last() =~= s@.take(k - 1));
        k -= 1;
    }
    slice_of(s, 0, k)
}

fn first_param_exec(parts: &Vec<Vec<char>>, key: &[char]) -> (res: Option<String>)
    ensures
        res matches Some(v) ==> first_param(parts@.map_values(|p: Vec<char>| p@), key@) == Some(v@),
        res is None ==> first_param(parts@.map_values(|p: Vec<char>| p@), key@) is None,
{
    let ghost pv = parts@.map_values(|p: Vec<char>| p@);
    let mut j: usize = 0;
    while j < parts.len() && !starts_with(&parts[j], key)
        invariant
            j <= parts.len(),
            pv == parts@.map_values(|p: Vec<char>| p@),
            forall|i: int| 0 <= i < j ==> !key@.is_prefix_of(#[trigger] pv[i]),
        decreases parts.len() - j,
    {
        j += 1;
    }
    proof {
        lemma_first_param_at(pv, key@, j as int);
    }
    if j < parts.len() {
        let v = slice_of(&parts[j], key.len(), parts[j].len());
        if v.len() == 0 {
            None
        } else {
            Some(string_of(&v))
        }
    } else {
        None
    }
}

/// Splits `http://host:port?nd_user=u&nd_token=t&nd_salt=s` into the base URL
/// and the user, token and salt found in its query.
pub fn parse_base_url(url: &str) -> (res: (String, Option<String>, Option<String>, Option<String>))
    ensures
        ({
            let (b, u, t, s) = base_url_parts(url@);
            &&& res.0@ == b
            &&& (match res.1 {
                Some(x) => u == Some(x@),
                None => u is None,
            })
            &&& (match res.2 {
                Some(x) => t == Some(x@),
                None => t is None,
            })
            &&& (match res.3 {
                Some(x) => s == Some(x@),
                None => s is None,
            })
        }),
{
    let u = chars_of(url);
    match find_char_exec(&u, '?') {
        Some(i) => {
            assert(find_char(u@, '?') == Some(i as nat));
            assert(i < u@.len());
            let base = slice_of(&u, 0, i);
            assert(i < u.len());
            let query = slice_of(&u, i + 1, u.len());
            let parts = split_chars(&query, '&');
            assert(parts@.map_values(|p: Vec<char>| p@) =~= split(u@.skip(i + 1), '&'));
            (
                string_of(&base),
                first_param_exec(&parts, &chars_of("nd_user=")),
                first_param_exec(&parts, &chars_of("nd_token=")),
                first_param_exec(&parts, &chars_of("nd_salt=")),
            )
        },
        None => (string_of(&u), None, None, None),
    }
}

/// Percent-encodes the UTF-8 bytes of `s`, keeping `A-Z a-z 0-9 - _ . ~`
/// and writing escapes in lower-case hex.
pub fn percent_encode(s: &str) -> (res: String)
    ensures
        res@ == percent_encode_spec(s@),
{
    string_of(&pct_encode_bytes(s.as_bytes(), false, false))
}

/// Percent-decodes `s` (`%` and two hex digits become that byte) and reads
/// the bytes as UTF-8, replacing malformed sequences.
pub fn percent_decode(s: &str) -> (res: String)
    ensures
        res@ == percent_decode_spec(s@),
        valid_utf8(pct_decode(encode_utf8(s@))) ==> res@ == decode_utf8(pct_decode(encode_utf8(s@))),
{
    let raw = pct_decode_bytes(s.as_bytes());
    from_utf8_lossy(&raw)
}

/// The salt made of a 64-bit hash: the first eight digits of its 16-digit
/// lower-case hex, that is the hex of its four high bytes.
pub open spec fn salt_of_hash(h: u64) -> Seq<char> {
    hex_lower(
        seq![
            (h / 0x100000000000000) as u8,
            (h / 0x1000000000000 % 256) as u8,
            (h / 0x10000000000 % 256) as u8,
            (h / 0x100000000 % 256) as u8,
        ],
    )
}

/// A salt for token authentication from a hash of the moment and the
/// thread ([`salt_of_hash`]).
pub fn salt_from_hash(h: u64) -> (res: String)
    ensures
        res@ == salt_of_hash(h),
{
    let bytes: Vec<u8> = vec![
        (h / 0x100000000000000) as u8,
        (h / 0x1000000000000 % 256) as u8,
        (h / 0x10000000000 % 256) as u8,
        (h / 0x100000000 % 256) as u8,
    ];
    assert(bytes@ =~= seq![
        (h / 0x100000000000000) as u8,
        (h / 0x1000000000000 % 256) as u8,
        (h / 0x10000000000 % 256) as u8,
        (h / 0x100000000 % 256) as u8,
    ]);
    string_of(&crate::codec::lower_hex(&bytes))
}

/// The Subsonic token for a password and salt: `md5(password + salt)` in
/// lower-case hex.
pub fn compute_token(password: &str, salt: &str) -> (res: String)
    ensures
        res@ == token_of(password@, salt@),
{
    let mut ps = chars_of(password);
    extend_chars(&mut ps, &chars_of(salt));
    let joined = string_of(&ps);
    let digest = md5_digest(joined.as_str().as_bytes());
    string_of(&lower_hex(&digest))
}

/// The Subsonic authentication query fragment.
pub fn auth_params(user: &str, token: &str, salt: &str) -> (res: String)
    ensures
        res@ == auth_query(user@, token@, salt@),
{
    let mut out = chars_of("u=");
    extend_chars(&mut out, &chars_of(user));
    extend_chars(&mut out, &chars_of("&t="));
    extend_chars(&mut out, &chars_of(token));
    extend_chars(&mut out, &chars_of("&s="));
    extend_chars(&mut out, &chars_of(salt));
    extend_chars(&mut out, &chars_of("&v=1.16.1&c=rockbox&f=json"));
    string_of(&out)
}

/// The URL of a Subsonic REST endpoint: `extra` (already in `k=v&` form)
/// goes between the `?` and the authentication parameters.
pub fn rest_url(
    base_url: &str,
    endpoint: &str,
    extra: &str,
    user: &str,
    token: &str,
    salt: &str,
) -> (res: String)
    ensures
        res@ == rest_url_spec(base_url@, endpoint@, extra@, user@, token@, salt@),
{
    let mut out = trim_slashes_chars(&chars_of(base_url));
    extend_chars(&mut out, &chars_of("/rest/"));
    extend_chars(&mut out, &chars_of(endpoint));
    extend_chars(&mut out, &chars_of(".view?"));
    extend_chars(&mut out, &chars_of(extra));
    let auth = auth_params(user, token, salt);
    extend_chars(&mut out, &chars_of(auth.as_str()));
    string_of(&out)
}

/// The cover-art URL of an item, with an optional `size`.
pub fn cover_art_url(
    base_url: &str,
    user: &str,
    token: &str,
    salt: &str,
    id: &str,
    size: Option<u32>,
) -> (res: String)
    ensures
        res@ == trim_slashes(base_url@) + "/rest/getCoverArt.view?id="@ + id@ + (match size {
            Some(s) => "&size="@ + dec(s as nat),
            None => Seq::<char>::empty(),
        }) + "&"@ + auth_query(user@, token@, salt@),
{
    let mut out = trim_slashes_chars(&chars_of(base_url));
    extend_chars(&mut out, &chars_of("/rest/getCoverArt.view?id="));
    extend_chars(&mut out, &chars_of(id));
    match size {
        Some(s) => {
            extend_chars(&mut out, &chars_of("&size="));
            extend_chars(&mut out, &dec_chars(s as u64));
        },
        None => {},
    }
    extend_chars(&mut out, &chars_of("&"));
    let auth = auth_params(user, token, salt);
    extend_chars(&mut out, &chars_of(auth.as_str()));
    string_of(&out)
}

/// The streaming URL of a song.
pub fn stream_url(base_url: &str, user: &str, token: &str, salt: &str, song_id: &str) -> (res:
    String)
    ensures
        res@ == trim_slashes(base_url@) + "/rest/stream.view?id="@ + song_id@ + "&"@ + auth_query(
            user@,
            token@,
            salt@,
        ),
{
    let mut out = trim_slashes_chars(&chars_of(base_url));
    extend_chars(&mut out, &chars_of("/rest/stream.view?id="));
    extend_chars(&mut out, &chars_of(song_id));
    extend_chars(&mut out, &chars_of("&"));
    let auth = auth_params(user, token, salt);
    extend_chars(&mut out, &chars_of(auth.as_str()));
    string_of(&out)
}

impl DirectoryChild {
    /// The title, else the name, else the id.
    pub fn display_name(&self) -> (res: String)
        ensures
            res@ == display_name_spec(*self),
    {
        match &self.title {
            Some(t) => string_of(&chars_of(t.as_str())),
            None => match &self.name {
                Some(n) => string_of(&chars_of(n.as_str())),
                None => string_of(&chars_of(self.id.as_str())),
            },
        }
    }
}

impl SongEntry {
    /// The song the listing describes.
    pub fn into_song(self) -> (res: NavidromeSong)
        ensures
            res.id == self.id,
            res.title == self.title,
            res.artist == self.artist,
            res.artist_id == self.artist_id,
            res.album == self.album,
            res.album_id == self.album_id,
            res.cover_art == self.cover_art,
            res.duration == self.duration,
            res.track == self.track,
            res.year == self.year,
    {
        NavidromeSong {
            id: self.id,
            title: self.title,
            artist: self.artist,
            artist_id: self.artist_id,
            album: self.album,
            album_id: self.album_id,
            cover_art: self.cover_art,
            duration: self.duration,
            track: self.track,
            year: self.year,
        }
    }
}

/// The text of a folder id: a number in decimal, a string as it is, any
/// other value as its JSON text.
pub open spec fn folder_id_text(id: FolderId) -> Seq<char> {
    match id {
        FolderId::Number(n) => dec(n as nat),
        FolderId::Text(s) => s@,
        FolderId::Json(s) => s@,
    }
}

impl MusicFolder {
    /// The folder's id as text.
    pub fn id_str(&self) -> (res: String)
        ensures
            res@ == folder_id_text(self.id),
    {
        match &self.id {
            FolderId::Number(n) => string_of(&dec_chars(*n)),
            FolderId::Text(s) => string_of(&chars_of(s.as_str())),
            FolderId::Json(s) => string_of(&chars_of(s.as_str())),
        }
    }
}

/// The entry for a music folder: a container named by its name, or by its
/// id where it has none.
pub fn folder_entry(f: &MusicFolder) -> (res: NavidromeEntry)
    ensures
        res.id@ == folder_id_text(f.id),
        res.name@ == (match f.name {
            Some(n) => n@,
            None => folder_id_text(f.id),
        }),
        res.is_container,
        res.stream_url is None,
{
    let id = f.id_str();
    let name = match &f.name {
        Some(n) => string_of(&chars_of(n.as_str())),
        None => string_of(&chars_of(id.as_str())),
    };
    NavidromeEntry { id, name, is_container: true, stream_url: None }
}

/// The entry for a child of a music directory: directories are containers;
/// anything else gets a streaming URL.
pub fn directory_entry(
    base_url: &str,
    user: &str,
    token: &str,
    salt: &str,
    c: &DirectoryChild,
) -> (res: NavidromeEntry)
    ensures
        res.id@ == c.id@,
        res.name@ == display_name_spec(*c),
        res.is_container == (c.is_dir == Some(true)),
        res.is_container ==> res.stream_url is None,
        !res.is_container ==> (res.stream_url matches Some(u) && u@ == trim_slashes(base_url@)
            + "/rest/stream.view?id="@ + c.id@ + "&"@ + auth_query(user@, token@, salt@)),
{
    let is_dir = match c.is_dir {
        Some(b) => b,
        None => false,
    };
    let name = c.display_name();
    let stream = if !is_dir {
        Some(stream_url(base_url, user, token, salt, c.id.as_str()))
    } else {
        None
    };
    NavidromeEntry {
        id: string_of(&chars_of(c.id.as_str())),
        name,
        is_container: is_dir,
        stream_url: stream,
    }
}

/// The entry for an artist of an index: a container.
pub fn artist_entry(a: &ArtistEntry) -> (res: NavidromeEntry)
    ensures
        res.id@ == a.id@,
        res.name@ == a.name@,
        res.is_container,
        res.stream_url is None,
{
    NavidromeEntry {
        id: string_of(&chars_of(a.id.as_str())),
        name: string_of(&chars_of(a.name.as_str())),
        is_container: true,
        stream_url: None,
    }
}

/// Percent-decoding undoes percent-encoding: the bytes decoded from the
/// encoding of a text are its UTF-8 bytes, so they read back as the text
/// ([`percent_decode`] then returns it exactly).
pub proof fn law_percent_round_trip(s: Seq<char>)
    ensures
        pct_decode(encode_utf8(percent_encode_spec(s))) == encode_utf8(s),
        valid_utf8(pct_decode(encode_utf8(percent_encode_spec(s)))),
        decode_utf8(pct_decode(encode_utf8(percent_encode_spec(s)))) == s,
{
    let b = encode_utf8(s);
    let e = pct_encode(b, false, false);
    lemma_pct_roundtrip_bytes(b, false, false);
    assert(vstd::utf8::is_ascii_chars(e)) by {
        assert forall|i: int| 0 <= i < e.len() implies '\0' <= #[trigger] e[i] <= '\u{7f}' by {
            let c = pct_encode(b, false, false)[i];
            assert((c as u32) < 128);
            vstd::utf8::char_u32_cast(c, c as u32);
        }
    }
    vstd::utf8::is_ascii_chars_encode_utf8(e);
    assert(encode_utf8(e) =~= ascii_bytes(e));
    vstd::utf8::encode_utf8_valid_utf8(s);
    vstd::utf8::encode_utf8_decode_utf8(s);
}

} // verus!
