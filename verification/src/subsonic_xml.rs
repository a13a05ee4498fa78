//! What the Subsonic API answers show of the music library: a track as a
//! song child, an album as an album element, artists grouped by initial
//! for the index, and the XML elements of each.
use vstd::prelude::*;

use crate::codec::dec;
use crate::library::LibraryAlbum;
use crate::library::LibraryTrack;
use crate::codec::dec_chars;
use crate::codec::parse_unsigned;
use crate::codec::parse_unsigned_chars;
use crate::ordered::lemma_lex_irreflexive;
use crate::ordered::lemma_lex_total;
use crate::ordered::lemma_lex_transitive;
use crate::ordered::lex_less;
use crate::ordered::lex_lt;
use crate::ordered::strings_view;
use crate::outside::alphabetic;
use crate::outside::is_alphabetic;
use crate::outside::to_lowercase;
use crate::outside::upper_first;
use crate::outside::upper_first_of;
use crate::outside::unicode_lower;
use crate::subsonic::after_last;
use crate::subsonic::mime_for_path;
use crate::subsonic::mime_spec;
use crate::text::chars_eq;
use crate::text::chars_of;
use crate::text::opt_chars;
use crate::text::extend_chars;
use crate::text::string_of;
use crate::xml::escape;
use crate::xml::escape_chars;

verus! {

/// A track as a Subsonic song child.
pub struct SubsonicSong {
    pub id: String,
    /// The album the song is listed under.
    pub parent: String,
    pub title: String,
    pub album: String,
    pub artist: String,
    pub track: Option<u32>,
    pub year: Option<u32>,
    pub genre: Option<String>,
    pub cover_art: String,
    pub size: u64,
    pub content_type: String,
    pub suffix: String,
    /// Length in whole seconds.
    pub duration: u64,
    pub bit_rate: u32,
    pub path: String,
    pub disc_number: Option<u32>,
    /// None where the track has no album id.
    pub album_id: Option<String>,
    /// None where the track has no artist id.
    pub artist_id: Option<String>,
}

/// An album as a Subsonic album child.
pub struct SubsonicAlbum {
    pub id: String,
    pub name: String,
    pub artist: String,
    pub artist_id: String,
    pub song_count: u64,
    pub year: Option<u32>,
    pub cover_art: String,
}

/// The cover-art id of an album.
pub open spec fn album_art_id(album_id: Seq<char>) -> Seq<char> {
    "al-"@ + album_id
}

/// The cover-art id of an artist.
pub open spec fn artist_art_id(artist_id: Seq<char>) -> Seq<char> {
    "ar-"@ + artist_id
}

/// An id, or none where it is empty.
pub open spec fn non_empty(s: Seq<char>) -> Option<Seq<char>> {
    if s.len() == 0 {
        None
    } else {
        Some(s)
    }
}

/// ` name="value"` with the value escaped.
pub open spec fn attr_xml(name: Seq<char>, value: Seq<char>) -> Seq<char> {
    " "@ + name + "=\""@ + escape(value) + "\""@
}

/// ` name="n"` with a number.
pub open spec fn num_attr_xml(name: Seq<char>, n: nat) -> Seq<char> {
    " "@ + name + "=\""@ + dec(n) + "\""@
}

/// The `<song/>` element of a song child: absent ids are written empty and
/// an absent track number as 0.
pub open spec fn song_xml_spec(s: SubsonicSong) -> Seq<char> {
    "<song"@ + attr_xml("id"@, s.id@) + attr_xml("parent"@, s.parent@) + attr_xml(
        "title"@,
        s.title@,
    ) + attr_xml("album"@, s.album@) + attr_xml("artist"@, s.artist@) + " isDir=\"false\""@
        + attr_xml("coverArt"@, s.cover_art@) + num_attr_xml("duration"@, s.duration as nat)
        + num_attr_xml("bitRate"@, s.bit_rate as nat) + num_attr_xml(
        "track"@,
        match s.track {
            Some(t) => t as nat,
            None => 0,
        },
    ) + attr_xml("contentType"@, s.content_type@) + attr_xml("suffix"@, s.suffix@) + attr_xml(
        "albumId"@,
        match s.album_id {
            Some(a) => a@,
            None => Seq::<char>::empty(),
        },
    ) + attr_xml(
        "artistId"@,
        match s.artist_id {
            Some(a) => a@,
            None => Seq::<char>::empty(),
        },
    ) + "/>"@
}

/// The `<album/>` element of an album child.
pub open spec fn album_xml_spec(a: SubsonicAlbum) -> Seq<char> {
    "<album"@ + attr_xml("id"@, a.id@) + attr_xml("name"@, a.name@) + attr_xml("artist"@, a.artist@)
        + attr_xml("artistId"@, a.artist_id@) + num_attr_xml("songCount"@, a.song_count as nat)
        + attr_xml("coverArt"@, a.cover_art@) + "/>"@
}

// ── Exec ────────────────────────────────────────────────────────────────────

fn copy(s: &String) -> (res: String)
    ensures
        res@ == s@,
{
    s.clone()
}

fn copy_opt(o: &Option<String>) -> (res: Option<String>)
    ensures
        opt_chars(res) == opt_chars(*o),
{
    match o {
        Some(s) => Some(s.clone()),
        None => None,
    }
}

fn prefixed(prefix: &str, s: &str) -> (res: String)
    ensures
        res@ == prefix@ + s@,
{
    let mut out = chars_of(prefix);
    extend_chars(&mut out, &chars_of(s));
    string_of(&out)
}

fn non_empty_exec(s: &String) -> (res: Option<String>)
    ensures
        opt_chars(res) == non_empty(s@),
{
    if chars_of(s.as_str()).len() == 0 {
        None
    } else {
        Some(s.clone())
    }
}

fn push_attr(out: &mut Vec<char>, name: &str, value: &str)
    ensures
        final(out)@ == old(out)@ + attr_xml(name@, value@),
{
    extend_chars(out, &chars_of(" "));
    extend_chars(out, &chars_of(name));
    extend_chars(out, &chars_of("=\""));
    extend_chars(out, &escape_chars(&chars_of(value)));
    extend_chars(out, &chars_of("\""));
}

fn push_num_attr(out: &mut Vec<char>, name: &str, n: u64)
    ensures
        final(out)@ == old(out)@ + num_attr_xml(name@, n as nat),
{
    extend_chars(out, &chars_of(" "));
    extend_chars(out, &chars_of(name));
    extend_chars(out, &chars_of("=\""));
    extend_chars(out, &dec_chars(n));
    extend_chars(out, &chars_of("\""));
}

/// The song child of a track: listed under its album, with the album's
/// cover, the media type and the lower-cased extension of its path, and
/// its length in whole seconds.
pub fn song_of_track(t: &LibraryTrack) -> (res: SubsonicSong)
    ensures
        res.id@ == t.id@,
        res.parent@ == t.album_id@,
        res.title@ == t.title@,
        res.album@ == t.album@,
        res.artist@ == t.artist@,
        res.track == t.track_number,
        res.year == t.year,
        opt_chars(res.genre) == opt_chars(t.genre),
        res.cover_art@ == album_art_id(t.album_id@),
        res.size == t.filesize,
        res.content_type@ == mime_spec(t.path@),
        res.suffix@ == unicode_lower(after_last(t.path@, '.')),
        res.duration == t.length / 1000,
        res.bit_rate == t.bitrate,
        res.path@ == t.path@,
        res.disc_number == t.disc_number,
        opt_chars(res.album_id) == non_empty(t.album_id@),
        opt_chars(res.artist_id) == non_empty(t.artist_id@),
{
    let ext = string_of(&crate::subsonic::after_last_exec(&chars_of(t.path.as_str()), '.'));
    SubsonicSong {
        id: copy(&t.id),
        parent: copy(&t.album_id),
        title: copy(&t.title),
        album: copy(&t.album),
        artist: copy(&t.artist),
        track: t.track_number,
        year: t.year,
        genre: copy_opt(&t.genre),
        cover_art: prefixed("al-", t.album_id.as_str()),
        size: t.filesize,
        content_type: mime_for_path(t.path.as_str()),
        suffix: to_lowercase(ext.as_str()),
        duration: t.length / 1000,
        bit_rate: t.bitrate,
        path: copy(&t.path),
        disc_number: t.disc_number,
        album_id: non_empty_exec(&t.album_id),
        artist_id: non_empty_exec(&t.artist_id),
    }
}

/// The `<song/>` element of a song child ([`song_xml_spec`]).
pub fn song_xml(s: &SubsonicSong) -> (res: String)
    ensures
        res@ == song_xml_spec(*s),
{
    let mut out = chars_of("<song");
    push_attr(&mut out, "id", s.id.as_str());
    push_attr(&mut out, "parent", s.parent.as_str());
    push_attr(&mut out, "title", s.title.as_str());
    push_attr(&mut out, "album", s.album.as_str());
    push_attr(&mut out, "artist", s.artist.as_str());
    extend_chars(&mut out, &chars_of(" isDir=\"false\""));
    push_attr(&mut out, "coverArt", s.cover_art.as_str());
    push_num_attr(&mut out, "duration", s.duration);
    push_num_attr(&mut out, "bitRate", s.bit_rate as u64);
    let track: u64 = match s.track {
        Some(t) => t as u64,
        None => 0,
    };
    push_num_attr(&mut out, "track", track);
    push_attr(&mut out, "contentType", s.content_type.as_str());
    push_attr(&mut out, "suffix", s.suffix.as_str());
    let album_id: &str = match &s.album_id {
        Some(a) => a.as_str(),
        None => "",
    };
    push_attr(&mut out, "albumId", album_id);
    let artist_id: &str = match &s.artist_id {
        Some(a) => a.as_str(),
        None => "",
    };
    push_attr(&mut out, "artistId", artist_id);
    extend_chars(&mut out, &chars_of("/>"));
    proof {
        reveal_strlit("");
    }
    string_of(&out)
}

/// The album child of an album with `song_count` songs: its year only where
/// it is known.
pub fn album_of(a: &LibraryAlbum, song_count: u64) -> (res: SubsonicAlbum)
    ensures
        res.id@ == a.id@,
        res.name@ == a.title@,
        res.artist@ == a.artist@,
        res.artist_id@ == a.artist_id@,
        res.song_count == song_count,
        res.year == (if a.year > 0 {
            Some(a.year)
        } else {
            None
        }),
        res.cover_art@ == album_art_id(a.id@),
{
    SubsonicAlbum {
        id: copy(&a.id),
        name: copy(&a.title),
        artist: copy(&a.artist),
        artist_id: copy(&a.artist_id),
        song_count,
        year: if a.year > 0 {
            Some(a.year)
        } else {
            None
        },
        cover_art: prefixed("al-", a.id.as_str()),
    }
}

/// The `<album/>` element of an album child ([`album_xml_spec`]).
pub fn album_xml(a: &SubsonicAlbum) -> (res: String)
    ensures
        res@ == album_xml_spec(*a),
{
    let mut out = chars_of("<album");
    push_attr(&mut out, "id", a.id.as_str());
    push_attr(&mut out, "name", a.name.as_str());
    push_attr(&mut out, "artist", a.artist.as_str());
    push_attr(&mut out, "artistId", a.artist_id.as_str());
    push_num_attr(&mut out, "songCount", a.song_count);
    push_attr(&mut out, "coverArt", a.cover_art.as_str());
    extend_chars(&mut out, &chars_of("/>"));
    string_of(&out)
}


// ── The artist index ────────────────────────────────────────────────────────

/// An artist of the index, with the number of its albums.
pub struct IndexArtist {
    pub id: String,
    pub name: String,
    pub album_count: u64,
}

/// The artists of the index under one initial.
pub struct IndexGroup {
    pub name: String,
    pub artists: Vec<IndexArtist>,
}

/// The initial an artist is listed under: the upper-cased first character
/// of its name where that is a letter, else `#`.
pub open spec fn index_key(name: Seq<char>) -> Seq<char> {
    if name.len() == 0 {
        "#"@
    } else if alphabetic(upper_first_of(name[0])) {
        seq![upper_first_of(name[0])]
    } else {
        "#"@
    }
}

/// An index artist as plain values.
pub open spec fn index_artist_view(a: IndexArtist) -> (Seq<char>, Seq<char>, u64) {
    (a.id@, a.name@, a.album_count)
}

/// Index artists as plain values.
pub open spec fn index_artists_view(v: Seq<IndexArtist>) -> Seq<(Seq<char>, Seq<char>, u64)> {
    v.map_values(|a: IndexArtist| index_artist_view(a))
}

/// The artists of `s` listed under `k`, in their order.
pub open spec fn with_key(s: Seq<(Seq<char>, Seq<char>, u64)>, k: Seq<char>) -> Seq<
    (Seq<char>, Seq<char>, u64),
>
    decreases s.len(),
{
    if s.len() == 0 {
        Seq::<(Seq<char>, Seq<char>, u64)>::empty()
    } else if index_key(s.last().1) == k {
        with_key(s.drop_last(), k).push(s.last())
    } else {
        with_key(s.drop_last(), k)
    }
}

/// Texts in strictly ascending order.
pub open spec fn strictly_ascending(s: Seq<Seq<char>>) -> bool {
    forall|i: int, j: int| 0 <= i < j < s.len() ==> lex_lt(#[trigger] s[i], #[trigger] s[j])
}

/// The initials of a list of artists.
pub open spec fn artist_keys(v: Seq<IndexArtist>) -> Seq<Seq<char>> {
    v.map_values(|a: IndexArtist| index_key(a.name@))
}

/// The initials of a list of groups.
pub open spec fn group_names(v: Seq<IndexGroup>) -> Seq<Seq<char>> {
    v.map_values(|g: IndexGroup| g.name@)
}

/// The characters of each key.
pub open spec fn key_views(v: Seq<Vec<char>>) -> Seq<Seq<char>> {
    v.map_values(|k: Vec<char>| k@)
}

fn index_key_exec(name: &str) -> (res: Vec<char>)
    ensures
        res@ == index_key(name@),
{
    let n = chars_of(name);
    if n.len() == 0 {
        return chars_of("#");
    }
    let c = upper_first(n[0]);
    if is_alphabetic(c) {
        let mut v: Vec<char> = Vec::new();
        v.push(c);
        assert(v@ =~= seq![c]);
        v
    } else {
        chars_of("#")
    }
}

/// Inserts `x` into the strictly ascending `keys` unless it is there.
fn insert_sorted(keys: &mut Vec<Vec<char>>, x: Vec<char>)
    requires
        strictly_ascending(key_views(old(keys)@)),
    ensures
        strictly_ascending(key_views(final(keys)@)),
        forall|k: Seq<char>|
            key_views(final(keys)@).contains(k) <==> (key_views(old(keys)@).contains(k) || k == x@),
{
    let ghost kv = key_views(keys@);
    let mut p: usize = 0;
    while p < keys.len()
        invariant
            p <= keys.len(),
            keys@ == old(keys)@,
            kv == key_views(keys@),
            forall|i: int| 0 <= i < p ==> lex_lt(#[trigger] kv[i], x@),
        ensures
            p <= keys.len(),
            keys@ == old(keys)@,
            forall|i: int| 0 <= i < p ==> lex_lt(#[trigger] kv[i], x@),
            p < keys.len() ==> !lex_lt(kv[p as int], x@),
        decreases keys.len() - p,
    {
        if !lex_less(&keys[p], &x) {
            break;
        }
        p += 1;
    }
    if p < keys.len() && chars_eq(&keys[p], &x) {
        proof {
            assert(kv[p as int] == x@);
            assert(kv.contains(x@));
        }
        return;
    }
    proof {
        if p < kv.len() {
            lemma_lex_total(kv[p as int], x@);
        }
    }
    keys.insert(p, x);
    proof {
        let nv = key_views(keys@);
        assert(nv =~= kv.take(p as int) + seq![x@] + kv.skip(p as int));
        assert forall|i: int, j: int| 0 <= i < j < nv.len() implies lex_lt(#[trigger] nv[i], #[trigger] nv[j]) by {
            if j < p {
                assert(nv[i] == kv[i] && nv[j] == kv[j]);
            } else if j == p {
                assert(nv[i] == kv[i]);
            } else if i > p {
                assert(nv[i] == kv[i - 1] && nv[j] == kv[j - 1]);
            } else if i == p {
                assert(nv[j] == kv[j - 1]);
                if j - 1 > p {
                    lemma_lex_transitive(x@, kv[p as int], kv[j - 1]);
                }
            } else {
                assert(nv[i] == kv[i] && nv[j] == kv[j - 1]);
                if j - 1 >= p {
                    lemma_lex_transitive(kv[i], x@, kv[p as int]);
                    if j - 1 > p {
                        lemma_lex_transitive(kv[i], kv[p as int], kv[j - 1]);
                    }
                }
            }
        }
        assert forall|k: Seq<char>| nv.contains(k) <==> (kv.contains(k) || k == x@) by {
            if nv.contains(k) {
                let i = choose|i: int| 0 <= i < nv.len() && nv[i] == k;
                if i < p {
                    assert(kv[i] == k);
                } else if i > p {
                    assert(kv[i - 1] == k);
                }
            }
            if kv.contains(k) {
                let i = choose|i: int| 0 <= i < kv.len() && kv[i] == k;
                if i < p {
                    assert(nv[i] == k);
                } else {
                    assert(nv[i + 1] == k);
                }
            }
            if k == x@ {
                assert(nv[p as int] == k);
            }
        }
    }
}

fn copy_artist(a: &IndexArtist) -> (res: IndexArtist)
    ensures
        index_artist_view(res) == index_artist_view(*a),
{
    IndexArtist { id: a.id.clone(), name: a.name.clone(), album_count: a.album_count }
}

/// The artists of `artists` listed under `key`, in their order.
fn group_of(artists: &[IndexArtist], akeys: &Vec<Vec<char>>, key: &Vec<char>) -> (res: Vec<IndexArtist>)
    requires
        akeys@.len() == artists@.len(),
        forall|t: int| 0 <= t < akeys@.len() ==> (#[trigger] akeys@[t])@ == index_key(artists@[t].name@),
    ensures
        index_artists_view(res@) == with_key(index_artists_view(artists@), key@),
{
    let ghost av = index_artists_view(artists@);
    let mut g: Vec<IndexArtist> = Vec::new();
    let mut j: usize = 0;
    while j < artists.len()
        invariant
            j <= artists@.len(),
            akeys@.len() == artists@.len(),
            forall|t: int| 0 <= t < akeys@.len() ==> (#[trigger] akeys@[t])@ == index_key(artists@[t].name@),
            av == index_artists_view(artists@),
            index_artists_view(g@) == with_key(av.take(j as int), key@),
        decreases artists.len() - j,
    {
        assert(av.take(j + 1).drop_last() =~= av.take(j as int));
        assert(av.take(j + 1).last() == av[j as int]);
        if chars_eq(&akeys[j], key) {
            let ghost before = g@;
            g.push(copy_artist(&artists[j]));
            assert(index_artists_view(g@) =~= index_artists_view(before).push(av[j as int]));
        }
        j += 1;
    }
    assert(av.take(artists.len() as int) =~= av);
    g
}

/// The artist index: one group per initial, in ascending order of the
/// initials, each holding the artists listed under it in their order.
pub fn artist_index(artists: &[IndexArtist]) -> (res: Vec<IndexGroup>)
    ensures
        strictly_ascending(group_names(res@)),
        forall|i: int|
            0 <= i < res@.len() ==> artist_keys(artists@).contains((#[trigger] res@[i]).name@),
        forall|j: int|
            0 <= j < artists@.len() ==> group_names(res@).contains(
                index_key((#[trigger] artists@[j]).name@),
            ),
        forall|i: int|
            0 <= i < res@.len() ==> index_artists_view((#[trigger] res@[i]).artists@) == with_key(
                index_artists_view(artists@),
                res@[i].name@,
            ),
{
    let mut keys: Vec<Vec<char>> = Vec::new();
    let mut akeys: Vec<Vec<char>> = Vec::new();
    let mut j: usize = 0;
    while j < artists.len()
        invariant
            j <= artists@.len(),
            akeys@.len() == j,
            forall|t: int| 0 <= t < j ==> (#[trigger] akeys@[t])@ == index_key(artists@[t].name@),
            strictly_ascending(key_views(keys@)),
            forall|t: int| 0 <= t < j ==> key_views(keys@).contains(#[trigger] akeys@[t]@),
            forall|k: Seq<char>|
                key_views(keys@).contains(k) ==> exists|t: int| 0 <= t < j && (#[trigger] akeys@[t])@ == k,
        decreases artists.len() - j,
    {
        let name = artists[j].name.as_str();
        let k = index_key_exec(name);
        let ghost kv_before = key_views(keys@);
        insert_sorted(&mut keys, index_key_exec(name));
        let ghost ak_before = akeys@;
        akeys.push(k);
        proof {
            assert forall|t: int| 0 <= t < j + 1 implies key_views(keys@).contains(#[trigger] akeys@[t]@) by {
                if t < j {
                    assert(akeys@[t] == ak_before[t]);
                    assert(kv_before.contains(ak_before[t]@));
                }
            }
            assert forall|kk: Seq<char>| key_views(keys@).contains(kk) implies exists|t: int|
                0 <= t < j + 1 && (#[trigger] akeys@[t])@ == kk by {
                if kv_before.contains(kk) {
                    let t = choose|t: int| 0 <= t < j && (#[trigger] ak_before[t])@ == kk;
                    assert(akeys@[t] == ak_before[t]);
                } else {
                    assert(akeys@[j as int]@ == kk);
                }
            }
        }
        j += 1;
    }
    let ghost kv = key_views(keys@);
    let mut out: Vec<IndexGroup> = Vec::new();
    let mut i: usize = 0;
    while i < keys.len()
        invariant
            i <= keys@.len(),
            kv == key_views(keys@),
            strictly_ascending(kv),
            akeys@.len() == artists@.len(),
            forall|t: int| 0 <= t < akeys@.len() ==> (#[trigger] akeys@[t])@ == index_key(artists@[t].name@),
            forall|t: int| 0 <= t < akeys@.len() ==> kv.contains(#[trigger] akeys@[t]@),
            forall|k: Seq<char>|
                kv.contains(k) ==> exists|t: int| 0 <= t < akeys@.len() && (#[trigger] akeys@[t])@ == k,
            out@.len() == i,
            forall|g: int| 0 <= g < i ==> (#[trigger] out@[g]).name@ == kv[g],
            forall|g: int|
                0 <= g < i ==> index_artists_view((#[trigger] out@[g]).artists@) == with_key(
                    index_artists_view(artists@),
                    kv[g],
                ),
        decreases keys.len() - i,
    {
        let group = group_of(artists, &akeys, &keys[i]);
        out.push(IndexGroup { name: string_of(&keys[i]), artists: group });
        i += 1;
    }
    proof {
        assert(group_names(out@) =~= kv);
        assert forall|g: int| 0 <= g < out@.len() implies artist_keys(artists@).contains(
            (#[trigger] out@[g]).name@,
        ) by {
            assert(kv.contains(kv[g]));
            let t = choose|t: int| 0 <= t < akeys@.len() && (#[trigger] akeys@[t])@ == kv[g];
            assert(artist_keys(artists@)[t] == out@[g].name@);
        }
        assert forall|t: int| 0 <= t < artists@.len() implies group_names(out@).contains(
            index_key((#[trigger] artists@[t]).name@),
        ) by {
            assert(kv.contains(akeys@[t]@));
        }
    }
    out
}

/// Every artist is listed under its own initial, and a group lists only
/// artists of its initial: with [`artist_index`], which makes one group per
/// initial that occurs, each artist is in exactly one group.
pub proof fn law_index_lists_each_artist_under_its_initial(s: Seq<(Seq<char>, Seq<char>, u64)>, k: Seq<char>)
    ensures
        forall|j: int| 0 <= j < s.len() && index_key(s[j].1) == k ==> with_key(s, k).contains(#[trigger] s[j]),
        forall|x: (Seq<char>, Seq<char>, u64)|
            #[trigger] with_key(s, k).contains(x) ==> index_key(x.1) == k && s.contains(x),
    decreases s.len(),
{
    if s.len() > 0 {
        let t = s.drop_last();
        law_index_lists_each_artist_under_its_initial(t, k);
        let w = with_key(s, k);
        assert forall|j: int| 0 <= j < s.len() && index_key(s[j].1) == k implies w.contains(#[trigger] s[j]) by {
            if j < t.len() {
                assert(s[j] == t[j]);
                assert(with_key(t, k).contains(t[j]));
                let i = choose|i: int| 0 <= i < with_key(t, k).len() && with_key(t, k)[i] == t[j];
                assert(w[i] == t[j]);
            } else {
                assert(w[w.len() - 1] == s[j]);
            }
        }
        assert forall|x: (Seq<char>, Seq<char>, u64)| w.contains(x) implies index_key(x.1) == k && s.contains(x) by {
            let i = choose|i: int| 0 <= i < w.len() && w[i] == x;
            let wt = with_key(t, k);
            if index_key(s.last().1) == k {
                assert(w == wt.push(s.last()));
            } else {
                assert(w == wt);
            }
            if i < wt.len() {
                assert(wt[i] == x);
                assert(wt.contains(x));
                assert(t.contains(x));
                let j = choose|j: int| 0 <= j < t.len() && t[j] == x;
                assert(s[j] == t[j]);
                assert(s[j] == x);
            } else {
                assert(x == s.last());
                assert(s[s.len() - 1] == x);
            }
        }
    }
}

/// The `<indexes>` element of the artist index.
pub open spec fn indexes_xml_spec(groups: Seq<IndexGroup>) -> Seq<char> {
    "<indexes lastModified=\"0\" ignoredArticles=\"The An A Die Das Ein\">"@ + crate::s3::concat(
        groups.map_values(|g: IndexGroup| group_xml_spec(g)),
    ) + "</indexes>"@
}

/// The `<index>` element of one group.
pub open spec fn group_xml_spec(g: IndexGroup) -> Seq<char> {
    "<index"@ + attr_xml("name"@, g.name@) + ">"@ + crate::s3::concat(
        g.artists@.map_values(|a: IndexArtist| index_artist_xml_spec(a)),
    ) + "</index>"@
}

/// The `<artist/>` element of an index artist.
pub open spec fn index_artist_xml_spec(a: IndexArtist) -> Seq<char> {
    "<artist"@ + attr_xml("id"@, a.id@) + attr_xml("name"@, a.name@) + "/>"@
}

fn group_xml(g: &IndexGroup) -> (res: Vec<char>)
    ensures
        res@ == group_xml_spec(*g),
{
    let mut out = chars_of("<index");
    push_attr(&mut out, "name", g.name.as_str());
    extend_chars(&mut out, &chars_of(">"));
    let ghost start = out@;
    let ghost parts = g.artists@.map_values(|a: IndexArtist| index_artist_xml_spec(a));
    let mut i: usize = 0;
    assert(parts.take(0) =~= Seq::<Seq<char>>::empty());
    assert(out@ =~= start + crate::s3::concat(parts.take(0)));
    while i < g.artists.len()
        invariant
            i <= g.artists@.len(),
            parts == g.artists@.map_values(|a: IndexArtist| index_artist_xml_spec(a)),
            out@ == start + crate::s3::concat(parts.take(i as int)),
        decreases g.artists.len() - i,
    {
        let a = &g.artists[i];
        let ghost before = out@;
        extend_chars(&mut out, &chars_of("<artist"));
        push_attr(&mut out, "id", a.id.as_str());
        push_attr(&mut out, "name", a.name.as_str());
        extend_chars(&mut out, &chars_of("/>"));
        assert(parts.take(i + 1).drop_last() =~= parts.take(i as int));
        assert(out@ =~= before + index_artist_xml_spec(g.artists@[i as int]));
        i += 1;
    }
    assert(parts.take(g.artists.len() as int) =~= parts);
    extend_chars(&mut out, &chars_of("</index>"));
    out
}

/// The `<indexes>` element of the artist index ([`indexes_xml_spec`]).
pub fn indexes_xml(groups: &[IndexGroup]) -> (res: String)
    ensures
        res@ == indexes_xml_spec(groups@),
{
    let mut out = chars_of("<indexes lastModified=\"0\" ignoredArticles=\"The An A Die Das Ein\">");
    let ghost start = out@;
    let ghost parts = groups@.map_values(|g: IndexGroup| group_xml_spec(g));
    let mut i: usize = 0;
    assert(parts.take(0) =~= Seq::<Seq<char>>::empty());
    assert(out@ =~= start + crate::s3::concat(parts.take(0)));
    while i < groups.len()
        invariant
            i <= groups@.len(),
            parts == groups@.map_values(|g: IndexGroup| group_xml_spec(g)),
            out@ == start + crate::s3::concat(parts.take(i as int)),
        decreases groups.len() - i,
    {
        let ghost before = out@;
        extend_chars(&mut out, &group_xml(&groups[i]));
        assert(parts.take(i + 1).drop_last() =~= parts.take(i as int));
        assert(out@ =~= before + group_xml_spec(groups@[i as int]));
        i += 1;
    }
    assert(parts.take(groups.len() as int) =~= parts);
    extend_chars(&mut out, &chars_of("</indexes>"));
    string_of(&out)
}


// ── Music directories ───────────────────────────────────────────────────────

/// The `<child/>` element of an artist of the root folder.
pub open spec fn artist_child_xml_spec(id: Seq<char>, name: Seq<char>) -> Seq<char> {
    "<child"@ + attr_xml("id"@, id) + " parent=\"1\" isDir=\"true\""@ + attr_xml("title"@, name)
        + attr_xml("coverArt"@, artist_art_id(id)) + "/>"@
}

/// The `<child/>` element of an album in the folder of artist `parent`.
pub open spec fn album_child_xml_spec(parent: Seq<char>, a: LibraryAlbum) -> Seq<char> {
    "<child"@ + attr_xml("id"@, a.id@) + attr_xml("parent"@, parent) + " isDir=\"true\""@
        + attr_xml("title"@, a.title@) + attr_xml("artist"@, a.artist@) + attr_xml(
        "coverArt"@,
        album_art_id(a.id@),
    ) + "/>"@
}

/// The `<directory>` element of folder `id` named `name` holding `children`.
pub open spec fn directory_xml_spec(id: Seq<char>, name: Seq<char>, children: Seq<Seq<char>>) -> Seq<
    char,
> {
    "<directory"@ + attr_xml("id"@, id) + attr_xml("name"@, name) + ">"@ + crate::s3::concat(children)
        + "</directory>"@
}

/// The `<child/>` element of an artist of the root folder
/// ([`artist_child_xml_spec`]).
pub fn artist_child_xml(id: &str, name: &str) -> (res: String)
    ensures
        res@ == artist_child_xml_spec(id@, name@),
{
    let mut out = chars_of("<child");
    push_attr(&mut out, "id", id);
    extend_chars(&mut out, &chars_of(" parent=\"1\" isDir=\"true\""));
    push_attr(&mut out, "title", name);
    let art = prefixed("ar-", id);
    push_attr(&mut out, "coverArt", art.as_str());
    extend_chars(&mut out, &chars_of("/>"));
    string_of(&out)
}

/// The `<child/>` element of an album in the folder of artist `parent`
/// ([`album_child_xml_spec`]).
pub fn album_child_xml(parent: &str, a: &LibraryAlbum) -> (res: String)
    ensures
        res@ == album_child_xml_spec(parent@, *a),
{
    let mut out = chars_of("<child");
    push_attr(&mut out, "id", a.id.as_str());
    push_attr(&mut out, "parent", parent);
    extend_chars(&mut out, &chars_of(" isDir=\"true\""));
    push_attr(&mut out, "title", a.title.as_str());
    push_attr(&mut out, "artist", a.artist.as_str());
    let art = prefixed("al-", a.id.as_str());
    push_attr(&mut out, "coverArt", art.as_str());
    extend_chars(&mut out, &chars_of("/>"));
    string_of(&out)
}

/// The `<directory>` element of folder `id` named `name` holding the
/// elements `children` ([`directory_xml_spec`]).
pub fn directory_xml(id: &str, name: &str, children: &[String]) -> (res: String)
    ensures
        res@ == directory_xml_spec(id@, name@, crate::ordered::strings_view(children@)),
{
    let mut out = chars_of("<directory");
    push_attr(&mut out, "id", id);
    push_attr(&mut out, "name", name);
    extend_chars(&mut out, &chars_of(">"));
    let ghost start = out@;
    let ghost parts = crate::ordered::strings_view(children@);
    let mut i: usize = 0;
    assert(parts.take(0) =~= Seq::<Seq<char>>::empty());
    assert(out@ =~= start + crate::s3::concat(parts.take(0)));
    while i < children.len()
        invariant
            i <= children@.len(),
            parts == crate::ordered::strings_view(children@),
            out@ == start + crate::s3::concat(parts.take(i as int)),
        decreases children.len() - i,
    {
        let ghost before = out@;
        extend_chars(&mut out, &chars_of(children[i].as_str()));
        assert(parts.take(i + 1).drop_last() =~= parts.take(i as int));
        assert(out@ =~= before + parts[i as int]);
        i += 1;
    }
    assert(parts.take(children.len() as int) =~= parts);
    extend_chars(&mut out, &chars_of("</directory>"));
    string_of(&out)
}


// ── Folders, user, playlists, scan ──────────────────────────────────────────

/// The `<musicFolders>` element: the one folder, id 1, named by the music
/// directory.
pub open spec fn music_folders_xml_spec(dir: Seq<char>) -> Seq<char> {
    "<musicFolders><musicFolder id=\"1\""@ + attr_xml("name"@, dir) + "/></musicFolders>"@
}

/// The `<musicFolders>` element ([`music_folders_xml_spec`]).
pub fn music_folders_xml(dir: &str) -> (res: String)
    ensures
        res@ == music_folders_xml_spec(dir@),
{
    let mut out = chars_of("<musicFolders><musicFolder id=\"1\"");
    push_attr(&mut out, "name", dir);
    extend_chars(&mut out, &chars_of("/></musicFolders>"));
    string_of(&out)
}

/// The roles of the one user, as XML attributes.
pub open spec fn user_roles_xml() -> Seq<char> {
    " scrobblingEnabled=\"true\" adminRole=\"true\" settingsRole=\"true\" downloadRole=\"true\" uploadRole=\"false\" playlistRole=\"true\" coverArtRole=\"true\" commentRole=\"false\" podcastRole=\"false\" streamRole=\"true\" jukeboxRole=\"false\" shareRole=\"false\""@
}

/// The `<user>` element of the one user.
pub open spec fn user_xml_spec(username: Seq<char>) -> Seq<char> {
    "<user"@ + attr_xml("username"@, username) + user_roles_xml() + "><folder>1</folder></user>"@
}

/// The `<user>` element of the one user ([`user_xml_spec`]).
pub fn user_xml(username: &str) -> (res: String)
    ensures
        res@ == user_xml_spec(username@),
{
    let mut out = chars_of("<user");
    push_attr(&mut out, "username", username);
    extend_chars(
        &mut out,
        &chars_of(
            " scrobblingEnabled=\"true\" adminRole=\"true\" settingsRole=\"true\" downloadRole=\"true\" uploadRole=\"false\" playlistRole=\"true\" coverArtRole=\"true\" commentRole=\"false\" podcastRole=\"false\" streamRole=\"true\" jukeboxRole=\"false\" shareRole=\"false\"",
        ),
    );
    extend_chars(&mut out, &chars_of("><folder>1</folder></user>"));
    string_of(&out)
}

/// The `<scanStatus/>` element.
pub open spec fn scan_status_xml_spec(scanning: bool) -> Seq<char> {
    "<scanStatus scanning=\""@ + (if scanning {
        "true"@
    } else {
        "false"@
    }) + "\" count=\"0\"/>"@
}

/// The `<scanStatus/>` element ([`scan_status_xml_spec`]).
pub fn scan_status_xml(scanning: bool) -> (res: String)
    ensures
        res@ == scan_status_xml_spec(scanning),
{
    let mut out = chars_of("<scanStatus scanning=\"");
    if scanning {
        extend_chars(&mut out, &chars_of("true"));
    } else {
        extend_chars(&mut out, &chars_of("false"));
    }
    extend_chars(&mut out, &chars_of("\" count=\"0\"/>"));
    string_of(&out)
}

/// A saved playlist as the playlist listing shows it.
pub struct PlaylistSummary {
    pub id: String,
    pub name: String,
    pub song_count: u64,
}

/// The `<playlist/>` element of a saved playlist.
pub open spec fn playlist_xml_spec(p: PlaylistSummary) -> Seq<char> {
    "<playlist"@ + attr_xml("id"@, p.id@) + attr_xml("name"@, p.name@) + num_attr_xml(
        "songCount"@,
        p.song_count as nat,
    ) + "/>"@
}

/// The `<playlists>` element of the saved playlists.
pub open spec fn playlists_xml_spec(ps: Seq<PlaylistSummary>) -> Seq<char> {
    "<playlists>"@ + crate::s3::concat(ps.map_values(|p: PlaylistSummary| playlist_xml_spec(p)))
        + "</playlists>"@
}

/// The `<playlists>` element of the saved playlists
/// ([`playlists_xml_spec`]).
pub fn playlists_xml(ps: &[PlaylistSummary]) -> (res: String)
    ensures
        res@ == playlists_xml_spec(ps@),
{
    let mut out = chars_of("<playlists>");
    let ghost start = out@;
    let ghost parts = ps@.map_values(|p: PlaylistSummary| playlist_xml_spec(p));
    let mut i: usize = 0;
    assert(parts.take(0) =~= Seq::<Seq<char>>::empty());
    assert(out@ =~= start + crate::s3::concat(parts.take(0)));
    while i < ps.len()
        invariant
            i <= ps@.len(),
            parts == ps@.map_values(|p: PlaylistSummary| playlist_xml_spec(p)),
            out@ == start + crate::s3::concat(parts.take(i as int)),
        decreases ps.len() - i,
    {
        let p = &ps[i];
        let ghost before = out@;
        extend_chars(&mut out, &chars_of("<playlist"));
        push_attr(&mut out, "id", p.id.as_str());
        push_attr(&mut out, "name", p.name.as_str());
        push_num_attr(&mut out, "songCount", p.song_count);
        extend_chars(&mut out, &chars_of("/>"));
        assert(parts.take(i + 1).drop_last() =~= parts.take(i as int));
        assert(out@ =~= before + playlist_xml_spec(ps@[i as int]));
        i += 1;
    }
    assert(parts.take(ps.len() as int) =~= parts);
    extend_chars(&mut out, &chars_of("</playlists>"));
    string_of(&out)
}

// ── Playlist edits ──────────────────────────────────────────────────────────

/// The tracks an edit removes: for each `songIndexToRemove` value in turn
/// that is a position of the playlist, the track there; other values are
/// ignored.
pub open spec fn removed_tracks(track_ids: Seq<Seq<char>>, indices: Seq<Seq<char>>) -> Seq<Seq<char>>
    decreases indices.len(),
{
    if indices.len() == 0 {
        Seq::<Seq<char>>::empty()
    } else {
        let r = removed_tracks(track_ids, indices.drop_last());
        match parse_unsigned(indices.last(), usize::MAX as nat) {
            Some(i) => if i < track_ids.len() {
                r.push(track_ids[i as int])
            } else {
                r
            },
            None => r,
        }
    }
}

/// The tracks an edit removes ([`removed_tracks`]).
pub fn removed_track_ids(track_ids: &[String], indices: &[String]) -> (res: Vec<String>)
    ensures
        strings_view(res@) == removed_tracks(strings_view(track_ids@), strings_view(indices@)),
{
    let ghost tv = strings_view(track_ids@);
    let ghost iv = strings_view(indices@);
    let mut out: Vec<String> = Vec::new();
    let mut j: usize = 0;
    assert(iv.take(0) =~= Seq::<Seq<char>>::empty());
    while j < indices.len()
        invariant
            j <= indices@.len(),
            tv == strings_view(track_ids@),
            iv == strings_view(indices@),
            strings_view(out@) == removed_tracks(tv, iv.take(j as int)),
        decreases indices.len() - j,
    {
        assert(iv.take(j + 1).drop_last() =~= iv.take(j as int));
        assert(iv.take(j + 1).last() == iv[j as int]);
        let ghost before = out@;
        match parse_unsigned_chars(&chars_of(indices[j].as_str()), usize::MAX as u64) {
            Some(i) => {
                if i < track_ids.len() as u64 {
                    out.push(track_ids[i as usize].clone());
                    assert(strings_view(out@) =~= strings_view(before).push(tv[i as int]));
                }
            },
            None => {},
        }
        j += 1;
    }
    assert(iv.take(indices.len() as int) =~= iv);
    out
}

} // verus!
