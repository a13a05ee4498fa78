//! The player's HTTP API: the bodies and queries its handlers take, what
//! each of them asks of the player (the firmware command, the DSP settings
//! and calls, the defaults of absent fields), device matching, and the
//! playlist payload types.
use vstd::prelude::*;

use crate::fw_bus::FwCmd;
use crate::netstream::normalized_url;
use crate::text::chars_eq;
use crate::text::chars_of;
use crate::text::lemma_split_nonempty;
use crate::text::slice_of;
use crate::text::starts_with;
use crate::text::split;
use crate::text::split_chars;
use crate::text::strip_prefix;
use crate::outside::parsed_url_path;
use crate::outside::url_path;
use crate::text::opt_chars;
use crate::text::string_of;

verus! {

// ── Player queries ──────────────────────────────────────────────────────────

/// `GET /player/play`: where to start.
pub struct PlayQuery {
    pub elapsed: Option<i64>,
    pub offset: Option<i64>,
}

impl PlayQuery {
    /// The firmware command of the request: play from the given elapsed
    /// time and offset, 0 where absent.
    pub fn command<R, F>(&self, reply: Option<R>) -> (res: FwCmd<R, F>)
        ensures
            res == (FwCmd::<R, F>::Play {
                elapsed: match self.elapsed {
                    Some(e) => e,
                    None => 0,
                },
                offset: match self.offset {
                    Some(o) => o,
                    None => 0,
                },
                reply,
            }),
    {
        let elapsed = match self.elapsed {
            Some(e) => e,
            None => 0,
        };
        let offset = match self.offset {
            Some(o) => o,
            None => 0,
        };
        FwCmd::Play { elapsed, offset, reply }
    }
}

/// `PUT /player/ff-rewind`: the new playback time.
pub struct FfRewindQuery {
    pub newtime: Option<i32>,
}

impl FfRewindQuery {
    /// The firmware command of the request: seek to the new time, 0 where
    /// absent.
    pub fn command<R, F>(&self, reply: Option<R>) -> (res: FwCmd<R, F>)
        ensures
            res == (FwCmd::<R, F>::FfRewind {
                newtime: match self.newtime {
                    Some(t) => t,
                    None => 0,
                },
                reply,
            }),
    {
        let newtime = match self.newtime {
            Some(t) => t,
            None => 0,
        };
        FwCmd::FfRewind { newtime, reply }
    }
}

/// `PUT /playlists/start`: where to start the current playlist.
pub struct StartPlaylistQuery {
    pub start_index: Option<i32>,
    pub elapsed: Option<u64>,
    pub offset: Option<u64>,
}

impl StartPlaylistQuery {
    /// The start index, elapsed time and offset, 0 where absent.
    pub fn arguments(&self) -> (res: (i32, u64, u64))
        ensures
            res.0 == match self.start_index {
                Some(v) => v,
                None => 0,
            },
            res.1 == match self.elapsed {
                Some(v) => v,
                None => 0,
            },
            res.2 == match self.offset {
                Some(v) => v,
                None => 0,
            },
    {
        (
            match self.start_index {
                Some(v) => v,
                None => 0,
            },
            match self.elapsed {
                Some(v) => v,
                None => 0,
            },
            match self.offset {
                Some(v) => v,
                None => 0,
            },
        )
    }
}

/// `PUT /playlists/shuffle`: the index the shuffle keeps in place.
pub struct ShuffleQuery {
    pub start_index: Option<i32>,
}

impl ShuffleQuery {
    /// The start index, 0 where absent.
    pub fn start_index(&self) -> (res: i32)
        ensures
            res == match self.start_index {
                Some(v) => v,
                None => 0,
            },
    {
        match self.start_index {
            Some(v) => v,
            None => 0,
        }
    }
}

/// `GET /browse/tree-entries`: the directory and whether hidden entries
/// are listed.
pub struct TreeQuery {
    pub q: Option<String>,
    pub show_hidden: Option<String>,
}

impl TreeQuery {
    /// Whether hidden entries are listed: only for `show_hidden=true`.
    pub fn shows_hidden(&self) -> (res: bool)
        ensures
            res == (opt_chars(self.show_hidden) == Some("true"@)),
    {
        match &self.show_hidden {
            Some(v) => chars_eq(&chars_of(v.as_str()), &chars_of("true")),
            None => false,
        }
    }

    /// The directory listed: the query's, or the music library.
    pub fn directory(&self, music_library: &str) -> (res: String)
        ensures
            res@ == match self.q {
                Some(p) => p@,
                None => music_library@,
            },
    {
        match &self.q {
            Some(p) => p.clone(),
            None => string_of(&chars_of(music_library)),
        }
    }
}

/// `GET /search`: the search term.
pub struct SearchQuery {
    pub q: Option<String>,
}

impl SearchQuery {
    /// The term searched for, empty where absent.
    pub fn term(&self) -> (res: String)
        ensures
            res@ == match self.q {
                Some(p) => p@,
                None => Seq::<char>::empty(),
            },
    {
        match &self.q {
            Some(p) => p.clone(),
            None => String::new(),
        }
    }
}

// ── Saved playlists ─────────────────────────────────────────────────────────

/// `POST /saved-playlists`.
pub struct CreatePlaylistBody {
    pub name: String,
    pub description: Option<String>,
    pub image: Option<String>,
    pub folder_id: Option<String>,
    pub track_ids: Option<Vec<String>>,
}

/// `PUT /saved-playlists/{id}`.
pub struct UpdatePlaylistBody {
    pub name: String,
    pub description: Option<String>,
    pub image: Option<String>,
    pub folder_id: Option<String>,
}

/// `POST /saved-playlists/{id}/tracks`.
pub struct AddTracksBody {
    pub track_ids: Vec<String>,
}

/// `POST /saved-playlists/folders`.
pub struct CreateFolderBody {
    pub name: String,
}

/// `GET /saved-playlists`: the folder listed.
pub struct ListQuery {
    pub folder_id: Option<String>,
}

impl ListQuery {
    /// The folder whose playlists are listed: a non-empty `folder_id`;
    /// otherwise all playlists are.
    pub fn folder(&self) -> (res: Option<String>)
        ensures
            opt_chars(res) == match self.folder_id {
                Some(f) => if f@.len() > 0 {
                    Some(f@)
                } else {
                    None
                },
                None => None,
            },
    {
        match &self.folder_id {
            Some(f) => {
                let fc = chars_of(f.as_str());
                if fc.len() > 0 {
                    Some(f.clone())
                } else {
                    None
                }
            },
            None => None,
        }
    }
}

/// `PUT /tracks/stream-metadata`: what is known of a streamed track.
pub struct StreamMetadataBody {
    pub url: String,
    pub title: String,
    pub artist: String,
    pub album: String,
    pub duration_ms: u32,
}

/// A new playlist of tracks.
pub struct NewPlaylist {
    pub name: String,
    pub tracks: Vec<String>,
}

/// Tracks (or a directory of them) inserted into the current playlist.
pub struct InsertTracks {
    pub position: i32,
    pub tracks: Vec<String>,
    pub directory: Option<String>,
    pub shuffle: Option<bool>,
}

/// Positions removed from the current playlist.
pub struct DeleteTracks {
    pub positions: Vec<i32>,
}

/// The status code of a playlist operation.
pub struct StatusCode {
    pub code: i32,
}

/// A track path as the playlist takes it: trimmed, without its fragment.
pub fn trim_path(s: &str) -> (res: String)
    ensures
        res@ == normalized_url(s@),
{
    crate::netstream::normalize_url(s)
}

impl InsertTracks {
    /// The tracks with each path trimmed of blanks and of its fragment.
    pub fn trimmed_tracks(&self) -> (res: Vec<String>)
        ensures
            res@.len() == self.tracks@.len(),
            forall|i: int| 0 <= i < res@.len() ==> (#[trigger] res@[i])@ == normalized_url(self.tracks@[i]@),
    {
        let mut out: Vec<String> = Vec::new();
        let mut i: usize = 0;
        while i < self.tracks.len()
            invariant
                i <= self.tracks@.len(),
                out@.len() == i,
                forall|j: int| 0 <= j < i ==> (#[trigger] out@[j])@ == normalized_url(self.tracks@[j]@),
            decreases self.tracks.len() - i,
        {
            out.push(trim_path(self.tracks[i].as_str()));
            i += 1;
        }
        out
    }
}

// ── Devices ─────────────────────────────────────────────────────────────────

/// What tells two output devices apart.
pub struct DeviceKey {
    pub id: String,
    pub service: String,
    pub ip: String,
}

/// Whether two devices are the same: the same id; or the same service that
/// is one of a kind on a host (`builtin`, `fifo`, `squeezelite`, `cmaf`);
/// or the same service at the same non-empty address.
pub open spec fn devices_match_spec(a: DeviceKey, b: DeviceKey) -> bool {
    if a.id@ == b.id@ {
        true
    } else if a.service@ != b.service@ {
        false
    } else if a.service@ == "builtin"@ || a.service@ == "fifo"@ || a.service@ == "squeezelite"@
        || a.service@ == "cmaf"@ {
        true
    } else {
        a.ip@.len() > 0 && a.ip@ == b.ip@
    }
}

/// Whether two devices are the same ([`devices_match_spec`]).
pub fn devices_match(a: &DeviceKey, b: &DeviceKey) -> (res: bool)
    ensures
        res == devices_match_spec(*a, *b),
{
    if chars_eq(&chars_of(a.id.as_str()), &chars_of(b.id.as_str())) {
        return true;
    }
    let sa = chars_of(a.service.as_str());
    if !chars_eq(&sa, &chars_of(b.service.as_str())) {
        return false;
    }
    if chars_eq(&sa, &chars_of("builtin")) || chars_eq(&sa, &chars_of("fifo")) || chars_eq(
        &sa,
        &chars_of("squeezelite"),
    ) || chars_eq(&sa, &chars_of("cmaf")) {
        return true;
    }
    let ia = chars_of(a.ip.as_str());
    ia.len() > 0 && chars_eq(&ia, &chars_of(b.ip.as_str()))
}

// ── Track URLs ──────────────────────────────────────────────────────────────

/// The id of the library track a URL of this server names: a URL whose
/// path is `/tracks/{id}` with a non-empty id and nothing after it.
pub open spec fn internal_track_id_spec(path: Seq<char>) -> Option<Seq<char>> {
    match parsed_url_path(path) {
        Some(p) => match strip_prefix(p, seq!['/']) {
            Some(r) => {
                let segs = split(r, '/');
                if segs.len() == 2 && segs[0] == "tracks"@ && segs[1].len() > 0 {
                    Some(segs[1])
                } else {
                    None
                }
            },
            None => None,
        },
        None => None,
    }
}

/// The id of the library track a URL of this server names
/// ([`internal_track_id_spec`]).
pub fn internal_track_id(path: &str) -> (res: Option<String>)
    ensures
        opt_chars(res) == internal_track_id_spec(path@),
{
    let p = match url_path(path) {
        Some(p) => chars_of(p.as_str()),
        None => return None,
    };
    if p.len() == 0 || p[0] != '/' {
        assert(strip_prefix(p@, seq!['/']) is None) by {
            if p@.len() > 0 {
                assert(seq!['/'][0] != p@[0]);
            }
        }
        return None;
    }
    assert(seq!['/'].is_prefix_of(p@));
    let r = slice_of(&p, 1, p.len());
    assert(r@ =~= p@.skip(1));
    let segs = split_chars(&r, '/');
    proof {
        lemma_split_nonempty(r@, '/');
    }
    if segs.len() == 2 && chars_eq(&segs[0], &chars_of("tracks")) && segs[1].len() > 0 {
        Some(string_of(&segs[1]))
    } else {
        None
    }
}

/// Whether a URL is the player's own WAV stream: its path is `/stream.wav`.
pub fn is_stream_wav(path: &str) -> (res: bool)
    ensures
        res == (parsed_url_path(path@) == Some("/stream.wav"@)),
{
    match url_path(path) {
        Some(p) => chars_eq(&chars_of(p.as_str()), &chars_of("/stream.wav")),
        None => false,
    }
}


/// Whether a path is an HTTP(S) URL.
pub open spec fn is_http_spec(path: Seq<char>) -> bool {
    "http://"@.is_prefix_of(path) || "https://"@.is_prefix_of(path)
}

/// Whether a path is an HTTP(S) URL ([`is_http_spec`]).
pub fn is_http(path: &str) -> (res: bool)
    ensures
        res == is_http_spec(path@),
{
    let p = chars_of(path);
    starts_with(&p, &chars_of("http://")) || starts_with(&p, &chars_of("https://"))
}

/// The metadata a playlist entry is shown with: the library's record for
/// its path, unless there is none or it has no album art and the path names
/// a track of this server, whose record is then taken.
pub fn pick_metadata<T>(by_hash: Option<T>, by_hash_has_art: bool, internal: Option<T>) -> (res: Option<T>)
    ensures
        res == (if (by_hash is None || !by_hash_has_art) && internal is Some {
            internal
        } else {
            by_hash
        }),
{
    if by_hash.is_none() || !by_hash_has_art {
        if internal.is_some() {
            return internal;
        }
    }
    by_hash
}

/// Whether the metadata of a track is fetched on demand: none was found,
/// the path names no track of this server, and it is an HTTP(S) URL other
/// than the player's own WAV stream.
pub fn fetches_metadata(found: bool, internal: bool, path: &str) -> (res: bool)
    ensures
        res == (!found && !internal && is_http_spec(path@) && parsed_url_path(path@) != Some(
            "/stream.wav"@,
        )),
{
    !found && !internal && is_http(path) && !is_stream_wav(path)
}


// ── Playlist entries ────────────────────────────────────────────────────────

/// What the player knows of a playlist entry.
pub struct PlaylistEntry {
    pub title: String,
    pub artist: String,
    pub album: String,
    pub albumartist: String,
    pub composer: String,
    pub length: u64,
    pub filesize: u64,
    pub bitrate: u32,
    pub frequency: u64,
    pub tracknum: i32,
    pub discnum: i32,
    pub year: i32,
    pub year_string: String,
    pub album_art: Option<String>,
    pub album_id: Option<String>,
    pub artist_id: Option<String>,
    pub genre_id: Option<String>,
    pub id: Option<String>,
}

/// What the library knows of the entry's track.
pub struct TrackMetadata {
    pub title: String,
    pub artist: String,
    pub album: String,
    pub album_artist: String,
    pub composer: String,
    pub length: u64,
    pub filesize: u64,
    pub bitrate: u32,
    pub frequency: u64,
    pub track_number: Option<u32>,
    pub disc_number: u32,
    pub year: Option<u32>,
    pub year_string: Option<String>,
    pub album_art: Option<String>,
    pub album_id: String,
    pub artist_id: String,
    pub genre_id: String,
    pub id: String,
}

/// A text the entry keeps unless it is empty, where the library's is taken.
pub open spec fn kept_or(entry: Seq<char>, library: Seq<char>) -> Seq<char> {
    if entry.len() == 0 {
        library
    } else {
        entry
    }
}

/// A number the entry keeps unless it is 0, where the library's is taken.
pub open spec fn kept_or_num(entry: int, library: int) -> int {
    if entry == 0 {
        library
    } else {
        entry
    }
}

fn fill_text(slot: &mut String, library: &String)
    ensures
        final(slot)@ == kept_or(old(slot)@, library@),
{
    if chars_of(slot.as_str()).len() == 0 {
        *slot = library.clone();
    }
}

fn copy_opt(o: &Option<String>) -> (res: Option<String>)
    ensures
        opt_chars(res) == opt_chars(*o),
{
    match o {
        Some(s) => Some(s.clone()),
        None => None,
    }
}

/// `new` is `old` filled from the library track `t`: every empty text and
/// every zero number is taken from the track (the track number and year
/// only where the track has one); the album art is the track's where it has
/// one; the album, artist and genre ids, and the entry's id, are the track's.
pub open spec fn hydrated_from(old: PlaylistEntry, new: PlaylistEntry, t: TrackMetadata) -> bool {
    &&& new.title@ == kept_or(old.title@, t.title@)
    &&& new.artist@ == kept_or(old.artist@, t.artist@)
    &&& new.album@ == kept_or(old.album@, t.album@)
    &&& new.albumartist@ == kept_or(old.albumartist@, t.album_artist@)
    &&& new.composer@ == kept_or(old.composer@, t.composer@)
    &&& new.length == kept_or_num(old.length as int, t.length as int)
    &&& new.filesize == kept_or_num(old.filesize as int, t.filesize as int)
    &&& new.bitrate == kept_or_num(old.bitrate as int, t.bitrate as int)
    &&& new.frequency == kept_or_num(old.frequency as int, t.frequency as int)
    &&& new.tracknum == (match t.track_number {
        Some(n) => kept_or_num(old.tracknum as int, (n as i32) as int),
        None => old.tracknum as int,
    })
    &&& new.discnum == kept_or_num(old.discnum as int, (t.disc_number as i32) as int)
    &&& new.year == (match t.year {
        Some(y) => kept_or_num(old.year as int, (y as i32) as int),
        None => old.year as int,
    })
    &&& new.year_string@ == (match t.year_string {
        Some(ys) => kept_or(old.year_string@, ys@),
        None => old.year_string@,
    })
    &&& opt_chars(new.album_art) == (match t.album_art {
        Some(a) => Some(a@),
        None => opt_chars(old.album_art),
    })
    &&& opt_chars(new.album_id) == Some(t.album_id@)
    &&& opt_chars(new.artist_id) == Some(t.artist_id@)
    &&& opt_chars(new.genre_id) == Some(t.genre_id@)
    &&& opt_chars(new.id) == Some(t.id@)
}

/// The two entries agree in every field.
pub open spec fn same_entry(a: PlaylistEntry, b: PlaylistEntry) -> bool {
    &&& a.title@ == b.title@
    &&& a.artist@ == b.artist@
    &&& a.album@ == b.album@
    &&& a.albumartist@ == b.albumartist@
    &&& a.composer@ == b.composer@
    &&& a.length == b.length
    &&& a.filesize == b.filesize
    &&& a.bitrate == b.bitrate
    &&& a.frequency == b.frequency
    &&& a.tracknum == b.tracknum
    &&& a.discnum == b.discnum
    &&& a.year == b.year
    &&& a.year_string@ == b.year_string@
    &&& opt_chars(a.album_art) == opt_chars(b.album_art)
    &&& opt_chars(a.album_id) == opt_chars(b.album_id)
    &&& opt_chars(a.artist_id) == opt_chars(b.artist_id)
    &&& opt_chars(a.genre_id) == opt_chars(b.genre_id)
    &&& opt_chars(a.id) == opt_chars(b.id)
}

/// Filling an entry a second time from the same track changes nothing.
pub proof fn law_hydrate_twice_is_once(a: PlaylistEntry, b: PlaylistEntry, c: PlaylistEntry, t: TrackMetadata)
    requires
        hydrated_from(a, b, t),
        hydrated_from(b, c, t),
    ensures
        same_entry(b, c),
{
}

/// Fills a playlist entry from its library track ([`hydrated_from`]).
pub fn hydrate_entry_from_track(entry: &mut PlaylistEntry, track: &TrackMetadata)
    ensures
        hydrated_from(*old(entry), *final(entry), *track),
{
    fill_text(&mut entry.title, &track.title);
    fill_text(&mut entry.artist, &track.artist);
    fill_text(&mut entry.album, &track.album);
    fill_text(&mut entry.albumartist, &track.album_artist);
    fill_text(&mut entry.composer, &track.composer);
    if entry.length == 0 {
        entry.length = track.length;
    }
    if entry.filesize == 0 {
        entry.filesize = track.filesize;
    }
    if entry.bitrate == 0 {
        entry.bitrate = track.bitrate;
    }
    if entry.frequency == 0 {
        entry.frequency = track.frequency;
    }
    if entry.tracknum == 0 {
        if let Some(n) = track.track_number {
            entry.tracknum = n as i32;
        }
    }
    if entry.discnum == 0 {
        entry.discnum = track.disc_number as i32;
    }
    if entry.year == 0 {
        if let Some(y) = track.year {
            entry.year = y as i32;
        }
    }
    if chars_of(entry.year_string.as_str()).len() == 0 {
        if let Some(ys) = &track.year_string {
            entry.year_string = ys.clone();
        }
    }
    if track.album_art.is_some() {
        entry.album_art = copy_opt(&track.album_art);
    }
    entry.album_id = Some(track.album_id.clone());
    entry.artist_id = Some(track.artist_id.clone());
    entry.genre_id = Some(track.genre_id.clone());
    entry.id = Some(track.id.clone());
}

} // verus!
