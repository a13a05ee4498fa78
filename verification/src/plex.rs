//! The Plex client: the token in a base URL, the scan of Plex XML listings
//! for directories and tracks, and the streaming URL of a track part.
use vstd::prelude::*;
use vstd::utf8::decode_utf8;
use vstd::utf8::encode_utf8;
use vstd::utf8::valid_utf8;

use crate::codec::pct_decode;
use crate::navidrome::percent_decode_spec;
use crate::navidrome::percent_encode_spec;
use crate::navidrome::trim_slashes;
use crate::navidrome::trim_slashes_chars;
use crate::text::before_first;
use crate::text::chars_of;
use crate::text::extend_chars;
use crate::text::find_char;
use crate::text::find_char_exec;
use crate::text::find_sub;
use crate::text::find_sub_exec;
use crate::text::slice_of;
use crate::text::string_of;
use crate::text::trim_end_matches;
use crate::text::trim_end_matches_chars;

verus! {

/// A Plex Media Server found on the network.
#[derive(Debug, Clone)]
pub struct PlexServer {
    pub name: String,
    pub base_url: String,
}

/// One browsable item of a Plex server.
#[derive(Debug, Clone)]
pub struct PlexEntry {
    pub key: String,
    pub title: String,
    pub is_container: bool,
    /// Direct HTTP stream URL for audio tracks.
    pub stream_url: Option<String>,
}

// ── Spec model ──────────────────────────────────────────────────────────────

/// What `parse_base_url` makes of `http://host:port?X-Plex-Token=t&…`.
pub open spec fn plex_base_parts(url: Seq<char>) -> (Seq<char>, Option<Seq<char>>) {
    match find_sub(url, "?X-Plex-Token="@) {
        Some(i) => {
            let token = before_first(url.skip(i + 14 as int), '&');
            (url.take(i as int), if token.len() == 0 {
                None
            } else {
                Some(token)
            })
        },
        None => (url, None),
    }
}

/// The value of attribute `name` quoted with `q` in `el`, if the attribute
/// and its closing quote are there.
pub open spec fn quoted_attr(el: Seq<char>, name: Seq<char>, q: char) -> Option<Seq<char>> {
    let needle = name + seq!['=', q];
    match find_sub(el, needle) {
        Some(start) => {
            let after = start + needle.len();
            match find_char(el.skip(after as int), q) {
                Some(end) => Some(el.subrange(after as int, (after + end) as int)),
                None => None,
            }
        },
        None => None,
    }
}

/// The value of attribute `name` in `el`: double-quoted first, then
/// single-quoted.
pub open spec fn attr(el: Seq<char>, name: Seq<char>) -> Option<Seq<char>> {
    match quoted_attr(el, name, '"') {
        Some(v) => Some(v),
        None => quoted_attr(el, name, '\''),
    }
}

/// An attribute's value, or the empty string.
pub open spec fn attr_or_empty(el: Seq<char>, name: Seq<char>) -> Seq<char> {
    match attr(el, name) {
        Some(v) => v,
        None => Seq::<char>::empty(),
    }
}

/// The `key` of the first `<Part ` inside a track element.
pub open spec fn part_key(el: Seq<char>) -> Option<Seq<char>> {
    match find_sub(el, "<Part "@) {
        Some(i) => attr(el.skip(i as int), "key"@),
        None => None,
    }
}

/// The `(key, title)` of every `<Directory …>` element with both attributes
/// non-empty, in document order.
pub open spec fn directories(xml: Seq<char>) -> Seq<(Seq<char>, Seq<char>)>
    decreases xml.len(),
{
    match find_sub(xml, "<Directory "@) {
        None => Seq::<(Seq<char>, Seq<char>)>::empty(),
        Some(rel) => match find_char(xml.skip(rel as int), '>') {
            None => Seq::<(Seq<char>, Seq<char>)>::empty(),
            Some(p) => {
                let end = rel + p + 1;
                if end <= xml.len() {
                    let el = xml.subrange(rel as int, end as int);
                    let k = attr_or_empty(el, "key"@);
                    let t = attr_or_empty(el, "title"@);
                    let rest = directories(xml.skip(end as int));
                    if k.len() > 0 && t.len() > 0 {
                        seq![(k, t)] + rest
                    } else {
                        rest
                    }
                } else {
                    Seq::<(Seq<char>, Seq<char>)>::empty()
                }
            },
        },
    }
}

/// The `(key, title, part key)` of every `<Track …>…</Track>` element with a
/// non-empty title and part key, in document order.
pub open spec fn tracks(xml: Seq<char>) -> Seq<(Seq<char>, Seq<char>, Seq<char>)>
    decreases xml.len(),
{
    match find_sub(xml, "<Track "@) {
        None => Seq::<(Seq<char>, Seq<char>, Seq<char>)>::empty(),
        Some(rel) => match find_sub(xml.skip(rel as int), "</Track>"@) {
            None => Seq::<(Seq<char>, Seq<char>, Seq<char>)>::empty(),
            Some(p) => {
                let end = rel + p + 8;
                if end <= xml.len() {
                    let el = xml.subrange(rel as int, end as int);
                    let k = attr_or_empty(el, "key"@);
                    let t = attr_or_empty(el, "title"@);
                    let pk = match part_key(el) {
                        Some(v) => v,
                        None => Seq::<char>::empty(),
                    };
                    let rest = tracks(xml.skip(end as int));
                    if t.len() > 0 && pk.len() > 0 {
                        seq![(k, t, pk)] + rest
                    } else {
                        rest
                    }
                } else {
                    Seq::<(Seq<char>, Seq<char>, Seq<char>)>::empty()
                }
            },
        },
    }
}

proof fn lemma_find_sub_in_front(s: Seq<char>, t: Seq<char>, pat: Seq<char>)
    requires
        find_sub(s, pat) is Some,
        find_sub(s, pat)->0 + pat.len() <= s.len(),
    ensures
        find_sub(s + t, pat) == find_sub(s, pat),
    decreases s.len(),
{
    let x = s + t;
    if pat.is_prefix_of(s) {
        assert(pat.is_prefix_of(x)) by {
            assert forall|k: int| 0 <= k < pat.len() implies pat[k] == x[k] by {
                assert(x[k] == s[k]);
            }
        }
    } else {
        assert(!pat.is_prefix_of(x)) by {
            if pat.is_prefix_of(x) {
                assert(pat.is_prefix_of(s)) by {
                    assert forall|k: int| 0 <= k < pat.len() implies pat[k] == s[k] by {
                        assert(x[k] == s[k]);
                    }
                }
            }
        }
        lemma_find_sub_in_front(s.drop_first(), t, pat);
        assert(x.drop_first() =~= s.drop_first() + t);
    }
}

/// The entry one `<Track …>…</Track>` element gives: its key, title and
/// part key, where the title and part key are non-empty.
pub open spec fn track_entry(el: Seq<char>) -> Seq<(Seq<char>, Seq<char>, Seq<char>)> {
    let t = attr_or_empty(el, "title"@);
    let pk = match part_key(el) {
        Some(v) => v,
        None => Seq::<char>::empty(),
    };
    if t.len() > 0 && pk.len() > 0 {
        seq![(attr_or_empty(el, "key"@), t, pk)]
    } else {
        Seq::<(Seq<char>, Seq<char>, Seq<char>)>::empty()
    }
}

/// A listing that starts with one whole `<Track …>…</Track>` element `a`
/// (its first `</Track>` closes it) lists that element's track, where it has
/// a title and a part key, and then every track of the rest: no track after
/// the first is lost, and each element yields its own entry.
pub proof fn law_tracks_element_then_rest(a: Seq<char>, b: Seq<char>)
    requires
        "<Track "@.is_prefix_of(a),
        a.len() >= 8,
        find_sub(a, "</Track>"@) == Some((a.len() - 8) as nat),
    ensures
        tracks(a + b) == track_entry(a) + tracks(b),
        tracks(a) == track_entry(a),
{
    reveal_strlit("<Track ");
    reveal_strlit("</Track>");
    lemma_tracks_front(a, b);
    lemma_tracks_front(a, Seq::<char>::empty());
    assert(a + Seq::<char>::empty() =~= a);
    assert(find_sub(Seq::<char>::empty(), "<Track "@) is None);
    assert(tracks(Seq::<char>::empty()) =~= Seq::<(Seq<char>, Seq<char>, Seq<char>)>::empty());
    assert(track_entry(a) + Seq::<(Seq<char>, Seq<char>, Seq<char>)>::empty() =~= track_entry(a));
}

proof fn lemma_tracks_front(a: Seq<char>, b: Seq<char>)
    requires
        "<Track "@.is_prefix_of(a),
        a.len() >= 8,
        find_sub(a, "</Track>"@) == Some((a.len() - 8) as nat),
    ensures
        tracks(a + b) == track_entry(a) + tracks(b),
{
    reveal_strlit("<Track ");
    reveal_strlit("</Track>");
    let x = a + b;
    assert("<Track "@.is_prefix_of(x)) by {
        assert forall|k: int| 0 <= k < "<Track "@.len() implies "<Track "@[k] == x[k] by {
            assert(x[k] == a[k]);
        }
    }
    assert(find_sub(x, "<Track "@) == Some(0nat));
    assert(x.skip(0) =~= x);
    lemma_find_sub_in_front(a, b, "</Track>"@);
    assert(x.subrange(0, a.len() as int) =~= a);
    assert(x.skip(a.len() as int) =~= b);
}

/// The streaming URL of a part: the base without trailing `/`, the part key
/// with a leading `/`, and the token where there is a non-empty one.
pub open spec fn stream_url_spec(base: Seq<char>, token: Option<Seq<char>>, pk: Seq<char>) -> Seq<
    char,
> {
    let path = if pk.len() > 0 && pk[0] == '/' {
        pk
    } else {
        seq!['/'] + pk
    };
    match token {
        Some(t) => if t.len() > 0 {
            trim_slashes(base) + path + "?X-Plex-Token="@ + t
        } else {
            trim_slashes(base) + path
        },
        None => trim_slashes(base) + path,
    }
}

/// The browse path of a library section: keys holding a `/` are paths
/// already; a bare id becomes `/library/sections/{id}/all`.
pub open spec fn section_path(key: Seq<char>) -> Seq<char> {
    if find_char(key, '/') is Some {
        key
    } else {
        "/library/sections/"@ + key + "/all"@
    }
}

// ── Exec ────────────────────────────────────────────────────────────────────

/// Splits `http://host:port?X-Plex-Token=xxx` into the base URL and the
/// token, if there is a non-empty one.
pub fn parse_base_url(url: &str) -> (res: (String, Option<String>))
    ensures
        ({
            let (b, t) = plex_base_parts(url@);
            &&& res.0@ == b
            &&& (match res.1 {
                Some(x) => t == Some(x@),
                None => t is None,
            })
        }),
{
    let u = chars_of(url);
    let needle = chars_of("?X-Plex-Token=");
    proof {
        reveal_strlit("?X-Plex-Token=");
    }
    match find_sub_exec(&u, &needle) {
        Some(i) => {
            let base = slice_of(&u, 0, i);
            let rest = slice_of(&u, i + 14, u.len());
            let token = match find_char_exec(&rest, '&') {
                Some(j) => slice_of(&rest, 0, j),
                None => slice_of(&rest, 0, rest.len()),
            };
            assert(token@ == before_first(rest@, '&'));
            (string_of(&base), if token.len() == 0 {
                None
            } else {
                Some(string_of(&token))
            })
        },
        None => (string_of(&u), None),
    }
}

fn quoted_attr_exec(el: &[char], name: &[char], q: char) -> (res: Option<Vec<char>>)
    ensures
        res matches Some(v) ==> quoted_attr(el@, name@, q) == Some(v@),
        res is None ==> quoted_attr(el@, name@, q) is None,
{
    let mut needle = slice_of(name, 0, name.len());
    needle.push('=');
    needle.push(q);
    assert(needle@ =~= name@ + seq!['=', q]);
    match find_sub_exec(el, &needle) {
        Some(start) => {
            assert(start + needle.len() <= el.len());
            let after = start + needle.len();
            let tail = slice_of(el, after, el.len());
            match find_char_exec(&tail, q) {
                Some(end) => Some(slice_of(el, after, after + end)),
                None => None,
            }
        },
        None => None,
    }
}

/// The value of attribute `name` in an XML element, double-quoted first,
/// then single-quoted.
pub fn attr_value(element: &str, name: &str) -> (res: Option<String>)
    ensures
        res matches Some(v) ==> attr(element@, name@) == Some(v@),
        res is None ==> attr(element@, name@) is None,
{
    let el = chars_of(element);
    let nm = chars_of(name);
    match attr_value_chars(&el, &nm) {
        Some(v) => Some(string_of(&v)),
        None => None,
    }
}

fn attr_value_chars(el: &[char], name: &[char]) -> (res: Option<Vec<char>>)
    ensures
        res matches Some(v) ==> attr(el@, name@) == Some(v@),
        res is None ==> attr(el@, name@) is None,
{
    match quoted_attr_exec(el, name, '"') {
        Some(v) => Some(v),
        None => quoted_attr_exec(el, name, '\''),
    }
}

fn attr_or_empty_exec(el: &[char], name: &str) -> (res: Vec<char>)
    ensures
        res@ == attr_or_empty(el@, name@),
{
    match attr_value_chars(el, &chars_of(name)) {
        Some(v) => v,
        None => Vec::new(),
    }
}

fn part_key_chars(el: &[char]) -> (res: Option<Vec<char>>)
    ensures
        res matches Some(v) ==> part_key(el@) == Some(v@),
        res is None ==> part_key(el@) is None,
{
    match find_sub_exec(el, &chars_of("<Part ")) {
        Some(i) => {
            let tail = slice_of(el, i, el.len());
            attr_value_chars(&tail, &chars_of("key"))
        },
        None => None,
    }
}

/// The `key` of the first `<Part ` of a track element.
pub fn extract_part_key(element: &str) -> (res: Option<String>)
    ensures
        res matches Some(v) ==> part_key(element@) == Some(v@),
        res is None ==> part_key(element@) is None,
{
    match part_key_chars(&chars_of(element)) {
        Some(v) => Some(string_of(&v)),
        None => None,
    }
}

/// The `(key, title)` of the `<Directory …>` elements of a Plex listing.
pub fn parse_directories(xml: &str) -> (res: Vec<(String, String)>)
    ensures
        res@.len() == directories(xml@).len(),
        forall|i: int|
            0 <= i < res@.len() ==> ((#[trigger] res@[i]).0@, res@[i].1@) == directories(xml@)[i],
{
    let x = chars_of(xml);
    let tag = chars_of("<Directory ");
    let mut out: Vec<(String, String)> = Vec::new();
    let mut pos: usize = 0;
    assert(x@.skip(0) =~= x@);
    loop
        invariant
            pos <= x.len(),
            tag@ == "<Directory "@,
            directories(xml@) == out@.map_values(|p: (String, String)| (p.0@, p.1@)) + directories(
                x@.skip(pos as int),
            ),
            x@ == xml@,
        ensures
            directories(xml@) == out@.map_values(|p: (String, String)| (p.0@, p.1@)),
        decreases x.len() - pos,
    {
        let s = slice_of(&x, pos, x.len());
        let ghost sv = x@.skip(pos as int);
        assert(s@ =~= sv);
        let rel = match find_sub_exec(&s, &tag) {
            Some(r) => r,
            None => {
                assert(directories(sv) =~= Seq::<(Seq<char>, Seq<char>)>::empty());
                assert(directories(xml@) =~= out@.map_values(|q: (String, String)| (q.0@, q.1@)));
                break;
            },
        };
        let from_rel = slice_of(&s, rel, s.len());
        assert(from_rel@ =~= sv.skip(rel as int));
        let p = match find_char_exec(&from_rel, '>') {
            Some(p) => p,
            None => {
                assert(directories(sv) =~= Seq::<(Seq<char>, Seq<char>)>::empty());
                assert(directories(xml@) =~= out@.map_values(|q: (String, String)| (q.0@, q.1@)));
                break;
            },
        };
        let end = rel + p + 1;
        let el = slice_of(&s, rel, end);
        let k = attr_or_empty_exec(&el, "key");
        let t = attr_or_empty_exec(&el, "title");
        assert(sv.skip(end as int) =~= x@.skip(pos + end));
        let ghost before = out@.map_values(|q: (String, String)| (q.0@, q.1@));
        if k.len() > 0 && t.len() > 0 {
            out.push((string_of(&k), string_of(&t)));
            assert(out@.map_values(|q: (String, String)| (q.0@, q.1@)) =~= before.push((k@, t@)));
            assert(directories(sv) == seq![(k@, t@)] + directories(sv.skip(end as int)));
            assert(before + directories(sv) =~= before.push((k@, t@)) + directories(
                sv.skip(end as int),
            ));
        }
        pos = pos + end;
    }
    assert(directories(xml@) =~= out@.map_values(|p: (String, String)| (p.0@, p.1@)));
    out
}

/// The `(key, title, part key)` of the `<Track …>…</Track>` elements of a
/// Plex listing.
pub fn parse_tracks(xml: &str) -> (res: Vec<(String, String, String)>)
    ensures
        res@.len() == tracks(xml@).len(),
        forall|i: int|
            0 <= i < res@.len() ==> ((#[trigger] res@[i]).0@, res@[i].1@, res@[i].2@) == tracks(
                xml@,
            )[i],
{
    let x = chars_of(xml);
    let tag = chars_of("<Track ");
    let close = chars_of("</Track>");
    proof {
        reveal_strlit("</Track>");
    }
    let mut out: Vec<(String, String, String)> = Vec::new();
    let mut pos: usize = 0;
    assert(x@.skip(0) =~= x@);
    loop
        invariant
            pos <= x.len(),
            tag@ == "<Track "@,
            close@ == "</Track>"@,
            close@.len() == 8,
            tracks(xml@) == out@.map_values(|p: (String, String, String)| (p.0@, p.1@, p.2@))
                + tracks(x@.skip(pos as int)),
            x@ == xml@,
        ensures
            tracks(xml@) == out@.map_values(|p: (String, String, String)| (p.0@, p.1@, p.2@)),
        decreases x.len() - pos,
    {
        let s = slice_of(&x, pos, x.len());
        let ghost sv = x@.skip(pos as int);
        assert(s@ =~= sv);
        let rel = match find_sub_exec(&s, &tag) {
            Some(r) => r,
            None => {
                assert(tracks(sv) =~= Seq::<(Seq<char>, Seq<char>, Seq<char>)>::empty());
                assert(tracks(xml@) =~= out@.map_values(|q: (String, String, String)| (q.0@, q.1@, q.2@)));
                break;
            },
        };
        let from_rel = slice_of(&s, rel, s.len());
        assert(from_rel@ =~= sv.skip(rel as int));
        let p = match find_sub_exec(&from_rel, &close) {
            Some(p) => p,
            None => {
                assert(tracks(sv) =~= Seq::<(Seq<char>, Seq<char>, Seq<char>)>::empty());
                assert(tracks(xml@) =~= out@.map_values(|q: (String, String, String)| (q.0@, q.1@, q.2@)));
                break;
            },
        };
        let end = rel + p + 8;
        let el = slice_of(&s, rel, end);
        let k = attr_or_empty_exec(&el, "key");
        let t = attr_or_empty_exec(&el, "title");
        let pk = match part_key_chars(&el) {
            Some(v) => v,
            None => Vec::new(),
        };
        assert(sv.skip(end as int) =~= x@.skip(pos + end));
        let ghost before = out@.map_values(|q: (String, String, String)| (q.0@, q.1@, q.2@));
        if t.len() > 0 && pk.len() > 0 {
            out.push((string_of(&k), string_of(&t), string_of(&pk)));
            assert(out@.map_values(|q: (String, String, String)| (q.0@, q.1@, q.2@)) =~= before.push(
                (k@, t@, pk@),
            ));
            assert(tracks(sv) == seq![(k@, t@, pk@)] + tracks(sv.skip(end as int)));
            assert(before + tracks(sv) =~= before.push((k@, t@, pk@)) + tracks(
                sv.skip(end as int),
            ));
        }
        pos = pos + end;
    }
    assert(tracks(xml@) =~= out@.map_values(|p: (String, String, String)| (p.0@, p.1@, p.2@)));
    out
}

/// The streaming URL of a track part.
pub fn build_stream_url(base_url: &str, token: Option<&str>, part_key: &str) -> (res: String)
    ensures
        res@ == stream_url_spec(
            base_url@,
            match token {
                Some(t) => Some(t@),
                None => None,
            },
            part_key@,
        ),
{
    let mut out = trim_slashes_chars(&chars_of(base_url));
    let pk = chars_of(part_key);
    if !(pk.len() > 0 && pk[0] == '/') {
        out.push('/');
    }
    extend_chars(&mut out, &pk);
    match token {
        Some(t) => {
            let tc = chars_of(t);
            if tc.len() > 0 {
                extend_chars(&mut out, &chars_of("?X-Plex-Token="));
                extend_chars(&mut out, &tc);
            }
        },
        None => {},
    }
    string_of(&out)
}

/// The URL of an API path on a server: the base URL without its trailing
/// slashes, then the path.
pub fn api_url(base_url: &str, api_path: &str) -> (res: String)
    ensures
        res@ == trim_end_matches(base_url@, seq!['/']) + api_path@,
{
    let mut out = trim_end_matches_chars(&chars_of(base_url), &['/']);
    extend_chars(&mut out, &chars_of(api_path));
    string_of(&out)
}

/// The `X-Plex-Token` header a request carries: the token, unless there is
/// none or it is empty.
pub fn token_header(token: Option<&str>) -> (res: Option<String>)
    ensures
        match token {
            Some(t) => if t@.len() > 0 {
                res matches Some(h) && h@ == t@
            } else {
                res is None
            },
            None => res is None,
        },
{
    match token {
        Some(t) => {
            let c = chars_of(t);
            if c.len() > 0 {
                Some(string_of(&c))
            } else {
                None
            }
        },
        None => None,
    }
}

/// The browse path of a library section key.
pub fn section_key(key: &str) -> (res: String)
    ensures
        res@ == section_path(key@),
{
    let k = chars_of(key);
    if find_char_exec(&k, '/').is_some() {
        string_of(&k)
    } else {
        let mut out = chars_of("/library/sections/");
        extend_chars(&mut out, &k);
        extend_chars(&mut out, &chars_of("/all"));
        string_of(&out)
    }
}

/// The library sections of a `/library/sections` listing, as containers.
pub fn section_entries(xml: &str) -> (res: Vec<PlexEntry>)
    ensures
        res@.len() == directories(xml@).len(),
        forall|i: int|
            0 <= i < res@.len() ==> {
                &&& (#[trigger] res@[i]).key@ == section_path(directories(xml@)[i].0)
                &&& res@[i].title@ == directories(xml@)[i].1
                &&& res@[i].is_container
                &&& res@[i].stream_url is None
            },
{
    let dirs = parse_directories(xml);
    let mut out: Vec<PlexEntry> = Vec::new();
    let mut i: usize = 0;
    while i < dirs.len()
        invariant
            i <= dirs.len(),
            dirs@.len() == directories(xml@).len(),
            forall|j: int|
                0 <= j < dirs@.len() ==> ((#[trigger] dirs@[j]).0@, dirs@[j].1@) == directories(
                    xml@,
                )[j],
            out@.len() == i,
            forall|j: int|
                0 <= j < i ==> {
                    &&& (#[trigger] out@[j]).key@ == section_path(directories(xml@)[j].0)
                    &&& out@[j].title@ == directories(xml@)[j].1
                    &&& out@[j].is_container
                    &&& out@[j].stream_url is None
                },
        decreases dirs.len() - i,
    {
        let key = section_key(dirs[i].0.as_str());
        let title = string_of(&chars_of(dirs[i].1.as_str()));
        out.push(PlexEntry { key, title, is_container: true, stream_url: None });
        i += 1;
    }
    out
}

/// The entries of a Plex listing: its directories as containers, then its
/// tracks with their streaming URLs.
pub fn browse_entries(base_url: &str, token: Option<&str>, xml: &str) -> (res: Vec<PlexEntry>)
    ensures
        res@.len() == directories(xml@).len() + tracks(xml@).len(),
        forall|i: int|
            0 <= i < directories(xml@).len() ==> {
                &&& (#[trigger] res@[i]).key@ == directories(xml@)[i].0
                &&& res@[i].title@ == directories(xml@)[i].1
                &&& res@[i].is_container
                &&& res@[i].stream_url is None
            },
        forall|i: int|
            0 <= i < tracks(xml@).len() ==> {
                let e = #[trigger] res@[directories(xml@).len() + i];
                &&& e.key@ == tracks(xml@)[i].0
                &&& e.title@ == tracks(xml@)[i].1
                &&& !e.is_container
                &&& e.stream_url matches Some(u) && u@ == stream_url_spec(
                    base_url@,
                    match token {
                        Some(t) => Some(t@),
                        None => None,
                    },
                    tracks(xml@)[i].2,
                )
            },
{
    let dirs = parse_directories(xml);
    let trs = parse_tracks(xml);
    let nd = dirs.len();
    let mut out: Vec<PlexEntry> = Vec::new();
    let mut i: usize = 0;
    while i < dirs.len()
        invariant
            i <= dirs.len(),
            nd == dirs.len(),
            dirs@.len() == directories(xml@).len(),
            forall|j: int|
                0 <= j < dirs@.len() ==> ((#[trigger] dirs@[j]).0@, dirs@[j].1@) == directories(
                    xml@,
                )[j],
            out@.len() == i,
            forall|j: int|
                0 <= j < i ==> {
                    &&& (#[trigger] out@[j]).key@ == directories(xml@)[j].0
                    &&& out@[j].title@ == directories(xml@)[j].1
                    &&& out@[j].is_container
                    &&& out@[j].stream_url is None
                },
        decreases dirs.len() - i,
    {
        out.push(
            PlexEntry {
                key: string_of(&chars_of(dirs[i].0.as_str())),
                title: string_of(&chars_of(dirs[i].1.as_str())),
                is_container: true,
                stream_url: None,
            },
        );
        i += 1;
    }
    let mut k: usize = 0;
    while k < trs.len()
        invariant
            k <= trs.len(),
            nd == directories(xml@).len(),
            trs@.len() == tracks(xml@).len(),
            forall|j: int|
                0 <= j < trs@.len() ==> ((#[trigger] trs@[j]).0@, trs@[j].1@, trs@[j].2@) == tracks(
                    xml@,
                )[j],
            out@.len() == nd + k,
            forall|j: int|
                0 <= j < nd ==> {
                    &&& (#[trigger] out@[j]).key@ == directories(xml@)[j].0
                    &&& out@[j].title@ == directories(xml@)[j].1
                    &&& out@[j].is_container
                    &&& out@[j].stream_url is None
                },
            forall|j: int|
                0 <= j < k ==> {
                    let e = #[trigger] out@[nd + j];
                    &&& e.key@ == tracks(xml@)[j].0
                    &&& e.title@ == tracks(xml@)[j].1
                    &&& !e.is_container
                    &&& e.stream_url matches Some(u) && u@ == stream_url_spec(
                        base_url@,
                        match token {
                            Some(t) => Some(t@),
                            None => None,
                        },
                        tracks(xml@)[j].2,
                    )
                },
        decreases trs.len() - k,
    {
        let url = build_stream_url(base_url, token, trs[k].2.as_str());
        out.push(
            PlexEntry {
                key: string_of(&chars_of(trs[k].0.as_str())),
                title: string_of(&chars_of(trs[k].1.as_str())),
                is_container: false,
                stream_url: Some(url),
            },
        );
        assert(out@[nd + k as int].key@ == tracks(xml@)[k as int].0);
        k += 1;
    }
    out
}

/// The server record for a resolved `_plexmediasvr._tcp.local.` service:
/// named by its instance name, or by its address where that is empty.
pub fn server_from_service(fullname: &str, service: &str, ip: &str, port: &str) -> (res: PlexServer)
    ensures
        ({
            let instance = trim_end_matches(trim_end_matches(fullname@, service@), seq!['.']);
            &&& res.name@ == (if instance.len() == 0 {
                "Plex ("@ + ip@ + ")"@
            } else {
                instance
            })
            &&& res.base_url@ == "http://"@ + ip@ + ":"@ + port@
        }),
{
    let dot = chars_of(".");
    proof {
        reveal_strlit(".");
    }
    assert(dot@ =~= seq!['.']);
    let instance = trim_end_matches_chars(
        &trim_end_matches_chars(&chars_of(fullname), &chars_of(service)),
        &dot,
    );
    let name = if instance.len() == 0 {
        let mut n = chars_of("Plex (");
        extend_chars(&mut n, &chars_of(ip));
        extend_chars(&mut n, &chars_of(")"));
        n
    } else {
        instance
    };
    let mut base = chars_of("http://");
    extend_chars(&mut base, &chars_of(ip));
    extend_chars(&mut base, &chars_of(":"));
    extend_chars(&mut base, &chars_of(port));
    PlexServer { name: string_of(&name), base_url: string_of(&base) }
}

/// Percent-encodes the UTF-8 bytes of `s` (lower-case hex escapes).
pub fn percent_encode(s: &str) -> (res: String)
    ensures
        res@ == percent_encode_spec(s@),
{
    crate::navidrome::percent_encode(s)
}

/// Percent-decodes `s` and reads the bytes as UTF-8, replacing malformed
/// sequences.
pub fn percent_decode(s: &str) -> (res: String)
    ensures
        res@ == percent_decode_spec(s@),
        valid_utf8(pct_decode(encode_utf8(s@))) ==> res@ == decode_utf8(pct_decode(encode_utf8(s@))),
{
    crate::navidrome::percent_decode(s)
}

} // verus!
