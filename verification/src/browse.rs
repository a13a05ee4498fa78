//! The file tree of the player: which source a tree path belongs to, how a
//! `plex://` or `navidrome://` path is split into the server and the place
//! on it, and the tree entries made of what is listed there or found on
//! disk.
use vstd::prelude::*;
use vstd::utf8::decode_utf8;
use vstd::utf8::encode_utf8;
use vstd::utf8::valid_utf8;

use crate::codec::pct_decode;
use crate::codec::pct_encode;

use crate::navidrome::base_url_parts;
use crate::navidrome::percent_decode_spec;
use crate::navidrome::percent_encode_spec;
use crate::navidrome::NavidromeEntry;
use crate::plex::plex_base_parts;
use crate::plex::PlexEntry;
use crate::plex::PlexServer;
use crate::text::before_first;
use crate::text::ends_with;
use crate::text::opt_str_chars;
use crate::text::chars_of;
use crate::text::extend_chars;
use crate::text::find_char;
use crate::text::find_char_exec;
use crate::text::opt_chars;
use crate::text::slice_of;
use crate::text::starts_with;
use crate::text::string_of;
use crate::text::strip_prefix;
use crate::text::strip_prefix_chars;

verus! {

/// The attribute of a directory entry.
pub const DIRECTORY_ATTR: u32 = 16;

/// The tree-browsing service.
pub struct Browse;

/// One entry of a tree listing.
pub struct TreeEntry {
    /// The path (or stream URL) the entry opens.
    pub name: String,
    /// [`DIRECTORY_ATTR`] for containers, 0 for playable items.
    pub attr: u32,
    pub display_name: Option<String>,
    /// Modification time, seconds since the epoch (local files only).
    pub time_write: u32,
}

/// Where a tree path leads.
pub enum TreeSource {
    /// A UPnP media server; the path after `upnp://`.
    Upnp(String),
    /// A Plex server; the path after `plex://`.
    Plex(String),
    /// A Jellyfin server; the path after `jellyfin://`.
    Jellyfin(String),
    /// A Subsonic server; the path after `navidrome://`.
    Navidrome(String),
    /// A local directory; none for the music library.
    Local(Option<String>),
}

// ── Spec model ──────────────────────────────────────────────────────────────

/// `s` with every leading copy of a non-empty `pat` removed
/// (`str::trim_start_matches`).
pub open spec fn trim_start_matches(s: Seq<char>, pat: Seq<char>) -> Seq<char>
    decreases s.len(),
{
    if pat.len() > 0 && pat.is_prefix_of(s) {
        trim_start_matches(s.skip(pat.len() as int), pat)
    } else {
        s
    }
}

/// The source a tree path leads to: the remote schemes by their prefix, in
/// this order, and everything else (or no path) the local disk.
pub open spec fn source_of(path: Option<Seq<char>>) -> (int, Seq<char>) {
    match path {
        Some(p) => if "upnp://"@.is_prefix_of(p) {
            (0, trim_start_matches(p, "upnp://"@))
        } else if "plex://"@.is_prefix_of(p) {
            (1, trim_start_matches(p, "plex://"@))
        } else if "jellyfin://"@.is_prefix_of(p) {
            (2, trim_start_matches(p, "jellyfin://"@))
        } else if "navidrome://"@.is_prefix_of(p) {
            (3, trim_start_matches(p, "navidrome://"@))
        } else {
            (4, p)
        },
        None => (5, Seq::<char>::empty()),
    }
}

/// The kind and text of a [`TreeSource`], as [`source_of`] numbers them.
pub open spec fn source_view(s: TreeSource) -> (int, Seq<char>) {
    match s {
        TreeSource::Upnp(r) => (0, r@),
        TreeSource::Plex(r) => (1, r@),
        TreeSource::Jellyfin(r) => (2, r@),
        TreeSource::Navidrome(r) => (3, r@),
        TreeSource::Local(Some(p)) => (4, p@),
        TreeSource::Local(None) => (5, Seq::<char>::empty()),
    }
}

/// The server part and the rest of a remote path: split at its first `/`.
pub open spec fn split_remote(rest: Seq<char>) -> (Seq<char>, Option<Seq<char>>) {
    match find_char(rest, '/') {
        Some(i) => (rest.take(i as int), Some(rest.skip(i + 1 as int))),
        None => (rest, None),
    }
}

/// Whether a remote path asks for discovery: empty, or only a query.
pub open spec fn is_discovery(rest: Seq<char>) -> bool {
    rest.len() == 0 || rest[0] == '?'
}

/// The Plex token a discovery path carries.
pub open spec fn discovery_token(rest: Seq<char>) -> Option<Seq<char>> {
    match strip_prefix(rest, "?X-Plex-Token="@) {
        Some(t) => {
            let v = before_first(t, '&');
            if v.len() == 0 {
                None
            } else {
                Some(v)
            }
        },
        None => None,
    }
}

/// The tree path of an item of a remote server.
pub open spec fn remote_item_path(scheme: Seq<char>, base_encoded: Seq<char>, id: Seq<char>) -> Seq<char> {
    scheme + base_encoded + seq!['/'] + percent_encode_spec(id)
}

/// The text of an optional string, empty where there is none
/// (`unwrap_or_default`).
pub open spec fn or_empty(o: Option<Seq<char>>) -> Seq<char> {
    match o {
        Some(v) => v,
        None => Seq::<char>::empty(),
    }
}

/// Whether a path ends in `.` and one of the audio extensions.
pub open spec fn has_audio_suffix(path: Seq<char>) -> bool {
    ||| ".mp3"@.is_suffix_of(path)
    ||| ".ogg"@.is_suffix_of(path)
    ||| ".flac"@.is_suffix_of(path)
    ||| ".m4a"@.is_suffix_of(path)
    ||| ".aac"@.is_suffix_of(path)
    ||| ".mp4"@.is_suffix_of(path)
    ||| ".alac"@.is_suffix_of(path)
    ||| ".wav"@.is_suffix_of(path)
    ||| ".wv"@.is_suffix_of(path)
    ||| ".mpc"@.is_suffix_of(path)
    ||| ".aiff"@.is_suffix_of(path)
    ||| ".ac3"@.is_suffix_of(path)
    ||| ".opus"@.is_suffix_of(path)
    ||| ".spx"@.is_suffix_of(path)
    ||| ".sid"@.is_suffix_of(path)
    ||| ".ape"@.is_suffix_of(path)
    ||| ".wma"@.is_suffix_of(path)
}

// ── Routing ─────────────────────────────────────────────────────────────────

/// `str::trim_start_matches` with a non-empty pattern.
fn trim_start_matches_chars(s: &[char], pat: &[char]) -> (res: Vec<char>)
    requires
        pat@.len() > 0,
    ensures
        res@ == trim_start_matches(s@, pat@),
{
    let mut k: usize = 0;
    assert(s@.skip(0) =~= s@);
    loop
        invariant
            k <= s.len(),
            pat@.len() > 0,
            trim_start_matches(s@, pat@) == trim_start_matches(s@.skip(k as int), pat@),
        decreases s.len() - k,
    {
        let rest = slice_of(s, k, s.len());
        assert(rest@ =~= s@.skip(k as int));
        if starts_with(&rest, pat) {
            assert(rest@.skip(pat@.len() as int) =~= s@.skip(k + pat@.len()));
            k = k + pat.len();
        } else {
            return rest;
        }
    }
}

/// The source a tree path leads to ([`source_of`]).
pub fn tree_source(path: Option<&str>) -> (res: TreeSource)
    ensures
        source_view(res) == source_of(opt_str_chars(path)),
{
    let p = match path {
        Some(p) => chars_of(p),
        None => return TreeSource::Local(None),
    };
    let upnp = chars_of("upnp://");
    let plex = chars_of("plex://");
    let jellyfin = chars_of("jellyfin://");
    let navidrome = chars_of("navidrome://");
    proof {
        reveal_strlit("upnp://");
        reveal_strlit("plex://");
        reveal_strlit("jellyfin://");
        reveal_strlit("navidrome://");
    }
    if starts_with(&p, &upnp) {
        TreeSource::Upnp(string_of(&trim_start_matches_chars(&p, &upnp)))
    } else if starts_with(&p, &plex) {
        TreeSource::Plex(string_of(&trim_start_matches_chars(&p, &plex)))
    } else if starts_with(&p, &jellyfin) {
        TreeSource::Jellyfin(string_of(&trim_start_matches_chars(&p, &jellyfin)))
    } else if starts_with(&p, &navidrome) {
        TreeSource::Navidrome(string_of(&trim_start_matches_chars(&p, &navidrome)))
    } else {
        TreeSource::Local(Some(string_of(&p)))
    }
}

/// The server part and the rest of a remote path ([`split_remote`]).
fn split_remote_exec(rest: &[char]) -> (res: (Vec<char>, Option<Vec<char>>))
    ensures
        res.0@ == split_remote(rest@).0,
        opt_vec(res.1) == split_remote(rest@).1,
{
    match find_char_exec(rest, '/') {
        Some(i) => {
            assert(i < rest.len());
            (slice_of(rest, 0, i), Some(slice_of(rest, i + 1, rest.len())))
        },
        None => {
            assert(rest@.subrange(0, rest@.len() as int) =~= rest@);
            (slice_of(rest, 0, rest.len()), None)
        },
    }
}

/// The characters of an optional character vector.
pub open spec fn opt_vec(o: Option<Vec<char>>) -> Option<Seq<char>> {
    match o {
        Some(v) => Some(v@),
        None => None,
    }
}

// ── Plex ────────────────────────────────────────────────────────────────────

/// What a `plex://` path asks for.
pub enum PlexRequest {
    /// The servers found on the network, each given this token.
    Discover(Option<String>),
    /// The library sections of a server.
    Sections { base_encoded: String, base_url: String, token: Option<String> },
    /// What lies under `api_path` on a server.
    Contents { base_encoded: String, base_url: String, token: Option<String>, api_path: String },
}

/// What the path after `plex://` asks for: discovery for an empty path or a
/// bare query; otherwise the percent-encoded server URL (with its token)
/// up to the first `/`, and after it the percent-encoded API path, if any.
pub fn plex_request(rest: &str) -> (res: PlexRequest)
    ensures
        is_discovery(rest@) ==> (res matches PlexRequest::Discover(t) && opt_chars(t) == discovery_token(
            rest@,
        )),
        !is_discovery(rest@) ==> ({
            let (b, api) = split_remote(rest@);
            let (url, tok) = plex_base_parts(percent_decode_spec(b));
            match api {
                None => res matches PlexRequest::Sections { base_encoded, base_url, token }
                    && base_encoded@ == b && base_url@ == url && opt_chars(token) == tok,
                Some(a) => res matches PlexRequest::Contents {
                    base_encoded,
                    base_url,
                    token,
                    api_path,
                } && base_encoded@ == b && base_url@ == url && opt_chars(token) == tok
                    && api_path@ == percent_decode_spec(a),
            }
        }),
{
    let r = chars_of(rest);
    if r.len() == 0 || r[0] == '?' {
        proof {
            reveal_strlit("?X-Plex-Token=");
        }
        let token = match strip_prefix_chars(&r, &chars_of("?X-Plex-Token=")) {
            Some(t) => {
                let v = match find_char_exec(&t, '&') {
                    Some(i) => slice_of(&t, 0, i),
                    None => {
                        assert(t@.subrange(0, t@.len() as int) =~= t@);
                        slice_of(&t, 0, t.len())
                    },
                };
                if v.len() == 0 {
                    None
                } else {
                    Some(string_of(&v))
                }
            },
            None => None,
        };
        return PlexRequest::Discover(token);
    }
    let (b, api) = split_remote_exec(&r);
    let bs = string_of(&b);
    let decoded = crate::plex::percent_decode(bs.as_str());
    let (base_url, token) = crate::plex::parse_base_url(decoded.as_str());
    match api {
        None => PlexRequest::Sections { base_encoded: bs, base_url, token },
        Some(a) => {
            let api_path = crate::plex::percent_decode(string_of(&a).as_str());
            PlexRequest::Contents { base_encoded: bs, base_url, token, api_path }
        },
    }
}

/// The tree path of an item of a remote server, as an exec function.
fn remote_item_path_exec(scheme: &str, base_encoded: &str, id: &str) -> (res: String)
    ensures
        res@ == remote_item_path(scheme@, base_encoded@, id@),
{
    let mut out = chars_of(scheme);
    extend_chars(&mut out, &chars_of(base_encoded));
    out.push('/');
    let enc = crate::navidrome::percent_encode(id);
    extend_chars(&mut out, &chars_of(enc.as_str()));
    string_of(&out)
}

/// A copy of a string.
fn copy_str(s: &String) -> (res: String)
    ensures
        res@ == s@,
{
    s.clone()
}

/// The entry of a Plex server found on the network: its base URL with the
/// discovery token, percent-encoded after `plex://`.
pub fn plex_server_entry(server: &PlexServer, token: Option<&str>) -> (res: TreeEntry)
    ensures
        res.name@ == "plex://"@ + percent_encode_spec(
            match token {
                Some(t) => server.base_url@ + "?X-Plex-Token="@ + t@,
                None => server.base_url@,
            },
        ),
        res.attr == DIRECTORY_ATTR,
        opt_chars(res.display_name) == Some(server.name@),
        res.time_write == 0,
{
    let mut base = chars_of(server.base_url.as_str());
    if let Some(t) = token {
        extend_chars(&mut base, &chars_of("?X-Plex-Token="));
        extend_chars(&mut base, &chars_of(t));
    }
    let mut name = chars_of("plex://");
    let enc = crate::plex::percent_encode(string_of(&base).as_str());
    extend_chars(&mut name, &chars_of(enc.as_str()));
    TreeEntry {
        name: string_of(&name),
        attr: DIRECTORY_ATTR,
        display_name: Some(copy_str(&server.name)),
        time_write: 0,
    }
}

/// The entry of a library section of a Plex server.
pub fn plex_section_entry(base_encoded: &str, e: &PlexEntry) -> (res: TreeEntry)
    ensures
        res.name@ == remote_item_path("plex://"@, base_encoded@, e.key@),
        res.attr == DIRECTORY_ATTR,
        opt_chars(res.display_name) == Some(e.title@),
        res.time_write == 0,
{
    TreeEntry {
        name: remote_item_path_exec("plex://", base_encoded, e.key.as_str()),
        attr: DIRECTORY_ATTR,
        display_name: Some(copy_str(&e.title)),
        time_write: 0,
    }
}

/// The entry of an item a Plex server lists: containers open their key;
/// tracks play their stream URL where there is one.
pub fn plex_content_entry(base_encoded: &str, e: &PlexEntry) -> (res: TreeEntry)
    ensures
        res.name@ == (if !e.is_container && e.stream_url is Some {
            e.stream_url->0@
        } else {
            remote_item_path("plex://"@, base_encoded@, e.key@)
        }),
        res.attr == (if e.is_container {
            DIRECTORY_ATTR
        } else {
            0
        }),
        opt_chars(res.display_name) == Some(e.title@),
        res.time_write == 0,
{
    let name = if e.is_container {
        remote_item_path_exec("plex://", base_encoded, e.key.as_str())
    } else {
        match &e.stream_url {
            Some(u) => copy_str(u),
            None => remote_item_path_exec("plex://", base_encoded, e.key.as_str()),
        }
    };
    TreeEntry {
        name,
        attr: if e.is_container {
            DIRECTORY_ATTR
        } else {
            0
        },
        display_name: Some(copy_str(&e.title)),
        time_write: 0,
    }
}

// ── Navidrome ───────────────────────────────────────────────────────────────

/// What a `navidrome://` path asks for.
pub enum NavidromeRequest {
    /// Nothing: there is no discovery, the list is empty.
    Nothing,
    /// The artist index of a server.
    Indexes { base_encoded: String, base_url: String, user: String, token: String, salt: String },
    /// The children of directory `dir_id` of a server.
    Directory {
        base_encoded: String,
        base_url: String,
        user: String,
        token: String,
        salt: String,
        dir_id: String,
    },
}

/// What the path after `navidrome://` asks for: nothing for an empty path
/// or a bare query; otherwise the percent-encoded server URL (with its
/// credentials) up to the first `/`, and after it the percent-encoded
/// directory id, if any. Missing credentials are empty.
pub fn navidrome_request(rest: &str) -> (res: NavidromeRequest)
    ensures
        is_discovery(rest@) ==> res is Nothing,
        !is_discovery(rest@) ==> ({
            let (b, dir) = split_remote(rest@);
            let (url, u, t, s) = base_url_parts(percent_decode_spec(b));
            match dir {
                None => res matches NavidromeRequest::Indexes {
                    base_encoded,
                    base_url,
                    user,
                    token,
                    salt,
                } && base_encoded@ == b && base_url@ == url && user@ == or_empty(u) && token@
                    == or_empty(t) && salt@ == or_empty(s),
                Some(d) => res matches NavidromeRequest::Directory {
                    base_encoded,
                    base_url,
                    user,
                    token,
                    salt,
                    dir_id,
                } && base_encoded@ == b && base_url@ == url && user@ == or_empty(u) && token@
                    == or_empty(t) && salt@ == or_empty(s) && dir_id@ == percent_decode_spec(d) && (
                valid_utf8(pct_decode(encode_utf8(d))) ==> dir_id@ == decode_utf8(
                    pct_decode(encode_utf8(d)),
                )),
            }
        }),
{
    let r = chars_of(rest);
    if r.len() == 0 || r[0] == '?' {
        return NavidromeRequest::Nothing;
    }
    let (b, dir) = split_remote_exec(&r);
    let bs = string_of(&b);
    let decoded = crate::navidrome::percent_decode(bs.as_str());
    let (base_url, u, t, s) = crate::navidrome::parse_base_url(decoded.as_str());
    let user = unwrap_text(u);
    let token = unwrap_text(t);
    let salt = unwrap_text(s);
    match dir {
        None => NavidromeRequest::Indexes { base_encoded: bs, base_url, user, token, salt },
        Some(d) => {
            let dir_id = crate::navidrome::percent_decode(string_of(&d).as_str());
            NavidromeRequest::Directory { base_encoded: bs, base_url, user, token, salt, dir_id }
        },
    }
}

/// An optional string, or the empty string.
fn unwrap_text(o: Option<String>) -> (res: String)
    ensures
        res@ == or_empty(opt_chars(o)),
{
    match o {
        Some(v) => v,
        None => String::new(),
    }
}

/// The entry of an artist of a Subsonic index: a container.
pub fn navidrome_index_entry(base_encoded: &str, e: &NavidromeEntry) -> (res: TreeEntry)
    ensures
        res.name@ == remote_item_path("navidrome://"@, base_encoded@, e.id@),
        res.attr == DIRECTORY_ATTR,
        opt_chars(res.display_name) == Some(e.name@),
        res.time_write == 0,
{
    TreeEntry {
        name: remote_item_path_exec("navidrome://", base_encoded, e.id.as_str()),
        attr: DIRECTORY_ATTR,
        display_name: Some(copy_str(&e.name)),
        time_write: 0,
    }
}

/// The entry of a child of a Subsonic directory: containers open their id;
/// songs play their stream URL where there is one.
pub fn navidrome_item_entry(base_encoded: &str, e: &NavidromeEntry) -> (res: TreeEntry)
    ensures
        res.name@ == (if !e.is_container && e.stream_url is Some {
            e.stream_url->0@
        } else {
            remote_item_path("navidrome://"@, base_encoded@, e.id@)
        }),
        res.attr == (if e.is_container {
            DIRECTORY_ATTR
        } else {
            0
        }),
        opt_chars(res.display_name) == Some(e.name@),
        res.time_write == 0,
{
    let name = if e.is_container {
        remote_item_path_exec("navidrome://", base_encoded, e.id.as_str())
    } else {
        match &e.stream_url {
            Some(u) => copy_str(u),
            None => remote_item_path_exec("navidrome://", base_encoded, e.id.as_str()),
        }
    };
    TreeEntry {
        name,
        attr: if e.is_container {
            DIRECTORY_ATTR
        } else {
            0
        },
        display_name: Some(copy_str(&e.name)),
        time_write: 0,
    }
}

// ── Local directories ───────────────────────────────────────────────────────

/// Whether a path ends in an audio extension ([`has_audio_suffix`]).
pub fn has_audio_suffix_exec(path: &str) -> (res: bool)
    ensures
        res == has_audio_suffix(path@),
{
    let p = chars_of(path);
    ends_with(&p, &chars_of(".mp3")) || ends_with(&p, &chars_of(".ogg")) || ends_with(
        &p,
        &chars_of(".flac"),
    ) || ends_with(&p, &chars_of(".m4a")) || ends_with(&p, &chars_of(".aac")) || ends_with(
        &p,
        &chars_of(".mp4"),
    ) || ends_with(&p, &chars_of(".alac")) || ends_with(&p, &chars_of(".wav")) || ends_with(
        &p,
        &chars_of(".wv"),
    ) || ends_with(&p, &chars_of(".mpc")) || ends_with(&p, &chars_of(".aiff")) || ends_with(
        &p,
        &chars_of(".ac3"),
    ) || ends_with(&p, &chars_of(".opus")) || ends_with(&p, &chars_of(".spx")) || ends_with(
        &p,
        &chars_of(".sid"),
    ) || ends_with(&p, &chars_of(".ape")) || ends_with(&p, &chars_of(".wma"))
}

/// The entry of a file or directory of a local directory listing: files
/// without an audio extension are left out, and so are hidden names
/// (starting with `.`) unless `show_hidden`; directories carry
/// [`DIRECTORY_ATTR`]; the time is truncated to 32 bits.
pub fn local_entry(
    path: &str,
    file_name: &str,
    is_file: bool,
    is_dir: bool,
    modified_secs: u64,
    show_hidden: bool,
) -> (res: Option<TreeEntry>)
    ensures
        res is None <==> ((is_file && !has_audio_suffix(path@)) || (!show_hidden
            && file_name@.len() > 0 && file_name@[0] == '.')),
        res matches Some(e) ==> {
            &&& e.name@ == path@
            &&& e.attr == (if is_dir {
                DIRECTORY_ATTR
            } else {
                0
            })
            &&& e.display_name is None
            &&& e.time_write == modified_secs as u32
        },
{
    if is_file && !has_audio_suffix_exec(path) {
        return None;
    }
    let n = chars_of(file_name);
    if !show_hidden && n.len() > 0 && n[0] == '.' {
        return None;
    }
    Some(
        TreeEntry {
            name: string_of(&chars_of(path)),
            attr: if is_dir {
                DIRECTORY_ATTR
            } else {
                0
            },
            display_name: None,
            time_write: modified_secs as u32,
        },
    )
}

// ── Laws ────────────────────────────────────────────────────────────────────

proof fn lemma_trim_start_matches_once(p: Seq<char>, rest: Seq<char>)
    requires
        p.len() > 0,
        !p.is_prefix_of(rest),
    ensures
        trim_start_matches(p + rest, p) == rest,
{
    assert(p.is_prefix_of(p + rest)) by {
        assert((p + rest).subrange(0, p.len() as int) =~= p);
    }
    assert((p + rest).skip(p.len() as int) =~= rest);
    assert(trim_start_matches(rest, p) == rest);
    assert(trim_start_matches(p + rest, p) == trim_start_matches(rest, p));
}

proof fn lemma_encoded_has_no_slash(b: Seq<u8>)
    ensures
        !pct_encode(b, false, false).contains('/'),
    decreases b.len(),
{
    if b.len() > 0 {
        lemma_encoded_has_no_slash(b.drop_first());
        let e = pct_encode(b, false, false);
        let et = pct_encode(b.drop_first(), false, false);
        let x = b[0];
        if e.contains('/') {
            let k = choose|k: int| 0 <= k < e.len() && e[k] == '/';
            if crate::codec::is_unreserved(x, false) {
                assert(e =~= seq![x as char] + et);
                if k == 0 {
                    assert(x != 47u8);
                    assert((x as char) != '/');
                } else {
                    assert(et[k - 1] == '/');
                }
            } else {
                let d1 = crate::codec::hex_digit_lower(x / 16);
                let d2 = crate::codec::hex_digit_lower(x % 16);
                assert(e =~= seq!['%', d1, d2] + et);
                if k >= 3 {
                    assert(et[k - 3] == '/');
                } else {
                    assert(x / 16 < 16 && x % 16 < 16);
                }
            }
        }
    }
}

/// The tree path made for an item of a Subsonic server leads back to it:
/// it is routed to the server, split at the end of the server part, and its
/// directory part decodes to the item's id (so [`navidrome_request`] asks
/// for that very directory).
pub proof fn law_navidrome_item_path_leads_back(base_encoded: Seq<char>, id: Seq<char>)
    requires
        base_encoded.len() > 0,
        !base_encoded.contains('/'),
        base_encoded[0] != '?',
    ensures
        ({
            let d = percent_encode_spec(id);
            let rest = base_encoded + seq!['/'] + d;
            &&& source_of(Some(remote_item_path("navidrome://"@, base_encoded, id))) == (3int, rest)
            &&& !is_discovery(rest)
            &&& split_remote(rest) == (base_encoded, Some(d))
            &&& valid_utf8(pct_decode(encode_utf8(d)))
            &&& decode_utf8(pct_decode(encode_utf8(d))) == id
        }),
{
    reveal_strlit("navidrome://");
    reveal_strlit("upnp://");
    reveal_strlit("plex://");
    reveal_strlit("jellyfin://");
    let d = percent_encode_spec(id);
    let rest = base_encoded + seq!['/'] + d;
    let path = "navidrome://"@ + rest;
    assert(remote_item_path("navidrome://"@, base_encoded, id) =~= path);
    assert(!"upnp://"@.is_prefix_of(path)) by {
        assert(path[0] == 'n');
        if "upnp://"@.is_prefix_of(path) {
            assert(path.subrange(0, 7)[0] == 'u');
        }
    }
    assert(!"plex://"@.is_prefix_of(path)) by {
        assert(path[0] == 'n');
        if "plex://"@.is_prefix_of(path) {
            assert(path.subrange(0, 7)[0] == 'p');
        }
    }
    assert(!"jellyfin://"@.is_prefix_of(path)) by {
        assert(path[0] == 'n');
        if "jellyfin://"@.is_prefix_of(path) {
            assert(path.subrange(0, 11)[0] == 'j');
        }
    }
    assert("navidrome://"@.is_prefix_of(path));
    assert(!"navidrome://"@.is_prefix_of(rest)) by {
        if "navidrome://"@.is_prefix_of(rest) {
            let pre = rest.subrange(0, 12);
            let n = base_encoded.len() as int;
            assert(pre[10] == '/');
            if n > 10 {
                assert(rest[10] == base_encoded[10]);
                assert(base_encoded[10] == '/');
                assert(base_encoded.contains('/'));
            } else if n == 10 {
                lemma_encoded_has_no_slash(encode_utf8(id));
                assert(pre[11] == '/');
                assert(rest[11] == d[0]);
                assert(d.contains('/'));
            } else {
                assert(rest[n] == '/');
                assert(pre[n] == '/');
            }
        }
    }
    lemma_trim_start_matches_once("navidrome://"@, rest);
    assert(rest[0] == base_encoded[0]);
    // The first `/` of the rest ends the server part.
    assert forall|i: int| 0 <= i < base_encoded.len() implies #[trigger] rest[i] != '/' by {
        assert(rest[i] == base_encoded[i]);
    }
    assert(rest[base_encoded.len() as int] == '/');
    lemma_first_slash(rest, base_encoded.len() as int);
    assert(rest.take(base_encoded.len() as int) =~= base_encoded);
    assert(rest.skip(base_encoded.len() + 1 as int) =~= d);
    crate::navidrome::law_percent_round_trip(id);
}

proof fn lemma_first_slash(s: Seq<char>, j: int)
    requires
        0 <= j < s.len(),
        s[j] == '/',
        forall|i: int| 0 <= i < j ==> #[trigger] s[i] != '/',
    ensures
        find_char(s, '/') == Some(j as nat),
    decreases j,
{
    if j > 0 {
        let t = s.drop_first();
        assert forall|i: int| 0 <= i < j - 1 implies #[trigger] t[i] != '/' by {
            assert(t[i] == s[i + 1]);
        }
        lemma_first_slash(t, j - 1);
    }
}

} // verus!
