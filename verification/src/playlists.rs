//! Smart playlists over the library: the candidates the rules are judged
//! on (each track joined with its playback stats and whether it is liked),
//! the tracks of the candidates the rules kept, and the albums and artists
//! of those tracks, each once, in the order their first track comes.
use vstd::prelude::*;

use crate::library::LibraryTrack;
use crate::text::chars_eq;
use crate::text::chars_of;
use crate::text::opt_chars;
use crate::text::string_of;

verus! {

/// The ids of a vector of strings.
pub open spec fn id_texts(v: Seq<String>) -> Seq<Seq<char>> {
    v.map_values(|s: String| s@)
}

/// Each id of `s` once, where it first occurs, in order.
pub open spec fn first_occurrences(s: Seq<Seq<char>>) -> Seq<Seq<char>>
    decreases s.len(),
{
    if s.len() == 0 {
        Seq::<Seq<char>>::empty()
    } else {
        let r = first_occurrences(s.drop_last());
        if r.contains(s.last()) {
            r
        } else {
            r.push(s.last())
        }
    }
}

/// The ids of `ids`, each once, in the order of their first occurrence.
pub fn unique_in_order(ids: &[String]) -> (res: Vec<String>)
    ensures
        id_texts(res@) == first_occurrences(id_texts(ids@)),
{
    let ghost iv = id_texts(ids@);
    let mut out: Vec<String> = Vec::new();
    let mut i: usize = 0;
    assert(iv.take(0) =~= Seq::<Seq<char>>::empty());
    while i < ids.len()
        invariant
            i <= ids@.len(),
            iv == id_texts(ids@),
            id_texts(out@) == first_occurrences(iv.take(i as int)),
        decreases ids.len() - i,
    {
        let ghost ov = id_texts(out@);
        assert(iv.take(i + 1).drop_last() =~= iv.take(i as int));
        assert(iv.take(i + 1).last() == ids@[i as int]@);
        let x = chars_of(ids[i].as_str());
        let mut found = false;
        let mut j: usize = 0;
        while j < out.len()
            invariant
                j <= out@.len(),
                ov == id_texts(out@),
                found == exists|k: int| 0 <= k < j && ov[k] == x@,
            decreases out.len() - j,
        {
            let eq = chars_eq(&chars_of(out[j].as_str()), &x);
            assert(ov[j as int] == out@[j as int]@);
            if eq {
                found = true;
            }
            assert(found == exists|k: int| 0 <= k < j + 1 && ov[k] == x@) by {
                if found && !eq {
                    let k = choose|k: int| 0 <= k < j && ov[k] == x@;
                    assert(0 <= k < j + 1 && ov[k] == x@);
                }
                if eq {
                    assert(0 <= j < j + 1 && ov[j as int] == x@);
                }
            }
            j += 1;
        }
        assert(found == ov.contains(x@));
        if !found {
            out.push(string_of(&x));
            assert(id_texts(out@) =~= ov.push(x@));
        }
        i += 1;
    }
    assert(iv.take(ids.len() as int) =~= iv);
    out
}

/// The albums of the matching tracks (given by their album ids, in the
/// resolver's order), each once, first come first.
pub fn resolve_album_ids(album_ids: &[String]) -> (res: Vec<String>)
    ensures
        id_texts(res@) == first_occurrences(id_texts(album_ids@)),
{
    unique_in_order(album_ids)
}

/// The artists of the matching tracks (given by their artist ids, in the
/// resolver's order), each once, first come first.
pub fn resolve_artist_ids(artist_ids: &[String]) -> (res: Vec<String>)
    ensures
        id_texts(res@) == first_occurrences(id_texts(artist_ids@)),
{
    unique_in_order(artist_ids)
}

/// The ids kept are exactly the ids given, each once: no id occurs twice in
/// [`first_occurrences`], and an id occurs there if and only if it occurs
/// in the input.
pub proof fn law_first_occurrences(s: Seq<Seq<char>>)
    ensures
        first_occurrences(s).no_duplicates(),
        forall|x: Seq<char>| #[trigger] first_occurrences(s).contains(x) <==> s.contains(x),
    decreases s.len(),
{
    if s.len() > 0 {
        let t = s.drop_last();
        law_first_occurrences(t);
        let r = first_occurrences(t);
        assert forall|x: Seq<char>| #[trigger] first_occurrences(s).contains(x) <==> s.contains(x) by {
            if s.contains(x) {
                let k = choose|k: int| 0 <= k < s.len() && s[k] == x;
                if k < s.len() - 1 {
                    assert(t[k] == x);
                    assert(t.contains(x));
                }
            }
            if t.contains(x) {
                let k = choose|k: int| 0 <= k < t.len() && t[k] == x;
                assert(s[k] == x);
            }
            if !r.contains(s.last()) {
                if r.push(s.last()).contains(x) {
                    let k = choose|k: int| 0 <= k < r.len() + 1 && r.push(s.last())[k] == x;
                    if k < r.len() {
                        assert(r[k] == x);
                    }
                }
                if x == s.last() {
                    assert(r.push(s.last())[r.len() as int] == x);
                }
                if r.contains(x) {
                    let k = choose|k: int| 0 <= k < r.len() && r[k] == x;
                    assert(r.push(s.last())[k] == x);
                }
            }
            assert(s.contains(s.last())) by {
                assert(s[s.len() - 1] == s.last());
            }
        }
        if !r.contains(s.last()) {
            assert(r.push(s.last()).no_duplicates()) by {
                let p = r.push(s.last());
                assert forall|i: int, j: int| 0 <= i < p.len() && 0 <= j < p.len() && i != j implies p[i] != p[j] by {
                    if i < r.len() && j < r.len() {
                    } else if i == r.len() {
                        assert(p[j] == r[j]);
                        assert(r.contains(r[j]));
                    } else {
                        assert(p[i] == r[i]);
                        assert(r.contains(r[i]));
                    }
                }
            }
        }
    } else {
        assert(first_occurrences(s) =~= Seq::<Seq<char>>::empty());
    }
}


// ── Candidates ──────────────────────────────────────────────────────────────

/// The playback stats of a track.
pub struct TrackStats {
    pub track_id: String,
    pub play_count: i64,
    pub skip_count: i64,
    /// When it was last played, in seconds since the epoch.
    pub last_played: Option<i64>,
    /// When it was last skipped, in seconds since the epoch.
    pub last_skipped: Option<i64>,
}

/// A track as the playlist rules judge it.
pub struct Candidate {
    pub id: String,
    pub title: String,
    pub artist: String,
    pub album: String,
    pub year: Option<i64>,
    pub genre: Option<String>,
    pub duration_ms: i64,
    pub bitrate: i64,
    pub date_added_ts: i64,
    pub play_count: i64,
    pub skip_count: i64,
    pub last_played: Option<i64>,
    pub last_skipped: Option<i64>,
    pub is_liked: bool,
}

/// The stats recorded for track `id`: the last entry for it.
pub open spec fn stats_of(stats: Seq<TrackStats>, id: Seq<char>) -> Option<TrackStats>
    decreases stats.len(),
{
    if stats.len() == 0 {
        None
    } else if stats.last().track_id@ == id {
        Some(stats.last())
    } else {
        stats_of(stats.drop_last(), id)
    }
}

/// Whether `c` is the candidate of track `t`: its fields, its length in
/// thousandths, its stats (none counts 0) and whether its id is liked.
pub open spec fn is_candidate_of(c: Candidate, t: LibraryTrack, stats: Seq<TrackStats>, liked: Seq<Seq<char>>) -> bool {
    let st = stats_of(stats, t.id@);
    &&& c.id@ == t.id@
    &&& c.title@ == t.title@
    &&& c.artist@ == t.artist@
    &&& c.album@ == t.album@
    &&& c.year == (match t.year {
        Some(y) => Some(y as i64),
        None => None,
    })
    &&& opt_chars(c.genre) == opt_chars(t.genre)
    &&& c.duration_ms == t.length * 1000
    &&& c.bitrate == t.bitrate
    &&& c.date_added_ts == t.created_at
    &&& c.play_count == (match st {
        Some(x) => x.play_count,
        None => 0,
    })
    &&& c.skip_count == (match st {
        Some(x) => x.skip_count,
        None => 0,
    })
    &&& c.last_played == (match st {
        Some(x) => x.last_played,
        None => None,
    })
    &&& c.last_skipped == (match st {
        Some(x) => x.last_skipped,
        None => None,
    })
    &&& c.is_liked == liked.contains(t.id@)
}

fn copy_text(s: &String) -> (res: String)
    ensures
        res@ == s@,
{
    s.clone()
}

fn copy_opt_text(o: &Option<String>) -> (res: Option<String>)
    ensures
        opt_chars(res) == opt_chars(*o),
{
    match o {
        Some(s) => Some(s.clone()),
        None => None,
    }
}

/// The index of the last stats entry of track `id`.
fn stats_index(stats: &[TrackStats], id: &str) -> (res: Option<usize>)
    ensures
        match res {
            Some(k) => k < stats@.len() && stats_of(stats@, id@) == Some(stats@[k as int]),
            None => stats_of(stats@, id@) is None,
        },
{
    let ghost sv = stats@;
    let mut k: usize = stats.len();
    assert(sv.take(k as int) =~= sv);
    while k > 0
        invariant
            k <= sv.len(),
            sv == stats@,
            stats_of(sv.take(k as int), id@) == stats_of(sv, id@),
        decreases k,
    {
        let ghost t = sv.take(k as int);
        assert(t.drop_last() =~= sv.take(k - 1));
        assert(t.last() == sv[k - 1]);
        if chars_eq(&chars_of(stats[k - 1].track_id.as_str()), &chars_of(id)) {
            return Some(k - 1);
        }
        k -= 1;
    }
    None
}

fn is_liked(liked: &[String], id: &str) -> (res: bool)
    ensures
        res == id_texts(liked@).contains(id@),
{
    let ghost lv = id_texts(liked@);
    let idc = chars_of(id);
    let mut i: usize = 0;
    while i < liked.len()
        invariant
            i <= liked@.len(),
            lv == id_texts(liked@),
            idc@ == id@,
            forall|j: int| 0 <= j < i ==> lv[j] != id@,
        decreases liked.len() - i,
    {
        if chars_eq(&chars_of(liked[i].as_str()), &idc) {
            assert(lv[i as int] == id@);
            return true;
        }
        i += 1;
    }
    false
}

/// The candidates of the library's tracks, in their order, each joined
/// with its stats and whether it is liked ([`is_candidate_of`]).
pub fn build_candidates(tracks: &[LibraryTrack], stats: &[TrackStats], liked: &[String]) -> (res: Vec<Candidate>)
    requires
        forall|i: int| 0 <= i < tracks@.len() ==> (#[trigger] tracks@[i]).length * 1000 <= i64::MAX,
    ensures
        res@.len() == tracks@.len(),
        forall|i: int|
            0 <= i < res@.len() ==> is_candidate_of(
                #[trigger] res@[i],
                tracks@[i],
                stats@,
                id_texts(liked@),
            ),
{
    let mut out: Vec<Candidate> = Vec::new();
    let mut i: usize = 0;
    while i < tracks.len()
        invariant
            i <= tracks@.len(),
            out@.len() == i,
            forall|j: int| 0 <= j < tracks@.len() ==> (#[trigger] tracks@[j]).length * 1000 <= i64::MAX,
            forall|j: int|
                0 <= j < i ==> is_candidate_of(#[trigger] out@[j], tracks@[j], stats@, id_texts(liked@)),
        decreases tracks.len() - i,
    {
        let t = &tracks[i];
        assert(t.length * 1000 <= i64::MAX);
        let st = stats_index(stats, t.id.as_str());
        let (play_count, skip_count, last_played, last_skipped) = match st {
            Some(k) => (stats[k].play_count, stats[k].skip_count, stats[k].last_played, stats[k].last_skipped),
            None => (0, 0, None, None),
        };
        let c = Candidate {
            id: copy_text(&t.id),
            title: copy_text(&t.title),
            artist: copy_text(&t.artist),
            album: copy_text(&t.album),
            year: match t.year {
                Some(y) => Some(y as i64),
                None => None,
            },
            genre: copy_opt_text(&t.genre),
            duration_ms: (t.length as i64) * 1000,
            bitrate: t.bitrate as i64,
            date_added_ts: t.created_at,
            play_count,
            skip_count,
            last_played,
            last_skipped,
            is_liked: is_liked(liked, t.id.as_str()),
        };
        out.push(c);
        i += 1;
    }
    out
}

// ── Resolved tracks ─────────────────────────────────────────────────────────

/// The index of the last track of `all` with id `id`.
pub open spec fn track_index(all: Seq<LibraryTrack>, id: Seq<char>) -> Option<int>
    decreases all.len(),
{
    if all.len() == 0 {
        None
    } else if all.last().id@ == id {
        Some(all.len() - 1)
    } else {
        track_index(all.drop_last(), id)
    }
}

/// The tracks of the candidates the rules kept, in their order, by id (the
/// last track with that id; candidates without one are skipped), as
/// indices into `all`.
pub open spec fn resolved_indices(all: Seq<LibraryTrack>, kept: Seq<Candidate>) -> Seq<int>
    decreases kept.len(),
{
    if kept.len() == 0 {
        Seq::<int>::empty()
    } else {
        let r = resolved_indices(all, kept.drop_last());
        match track_index(all, kept.last().id@) {
            Some(k) => r.push(k),
            None => r,
        }
    }
}

/// Whether two tracks hold the same values.
pub open spec fn same_track(a: LibraryTrack, b: LibraryTrack) -> bool {
    &&& a.id@ == b.id@
    &&& a.path@ == b.path@
    &&& a.title@ == b.title@
    &&& a.album@ == b.album@
    &&& a.artist@ == b.artist@
    &&& a.album_id@ == b.album_id@
    &&& a.artist_id@ == b.artist_id@
    &&& opt_chars(a.genre) == opt_chars(b.genre)
    &&& a.track_number == b.track_number
    &&& a.disc_number == b.disc_number
    &&& a.year == b.year
    &&& a.filesize == b.filesize
    &&& a.length == b.length
    &&& a.bitrate == b.bitrate
    &&& a.created_at == b.created_at
}

proof fn lemma_track_index_in_range(all: Seq<LibraryTrack>, id: Seq<char>)
    ensures
        track_index(all, id) matches Some(k) ==> 0 <= k < all.len() && all[k].id@ == id,
    decreases all.len(),
{
    if all.len() > 0 && all.last().id@ != id {
        lemma_track_index_in_range(all.drop_last(), id);
    }
}

fn copy_track(t: &LibraryTrack) -> (res: LibraryTrack)
    ensures
        same_track(res, *t),
{
    LibraryTrack {
        id: copy_text(&t.id),
        path: copy_text(&t.path),
        title: copy_text(&t.title),
        album: copy_text(&t.album),
        artist: copy_text(&t.artist),
        album_id: copy_text(&t.album_id),
        artist_id: copy_text(&t.artist_id),
        genre: copy_opt_text(&t.genre),
        track_number: t.track_number,
        disc_number: t.disc_number,
        year: t.year,
        filesize: t.filesize,
        length: t.length,
        bitrate: t.bitrate,
        created_at: t.created_at,
    }
}

fn find_track(all: &[LibraryTrack], id: &str) -> (res: Option<usize>)
    ensures
        match res {
            Some(k) => track_index(all@, id@) == Some(k as int),
            None => track_index(all@, id@) is None,
        },
{
    let ghost av = all@;
    let idc = chars_of(id);
    let mut k: usize = all.len();
    assert(av.take(k as int) =~= av);
    while k > 0
        invariant
            k <= av.len(),
            av == all@,
            idc@ == id@,
            forall|j: int| k <= j < av.len() ==> (#[trigger] av[j]).id@ != id@,
        decreases k,
    {
        if chars_eq(&chars_of(all[k - 1].id.as_str()), &idc) {
            proof {
                lemma_track_index_last_from(av, id@, (k - 1) as int);
            }
            return Some(k - 1);
        }
        k -= 1;
    }
    proof {
        lemma_track_index_none(av, id@);
    }
    None
}

proof fn lemma_track_index_last_from(all: Seq<LibraryTrack>, id: Seq<char>, k: int)
    requires
        0 <= k < all.len(),
        all[k].id@ == id,
        forall|j: int| k < j < all.len() ==> (#[trigger] all[j]).id@ != id,
    ensures
        track_index(all, id) == Some(k),
    decreases all.len(),
{
    if all.len() - 1 != k {
        lemma_track_index_last_from(all.drop_last(), id, k);
    }
}

proof fn lemma_track_index_none(all: Seq<LibraryTrack>, id: Seq<char>)
    requires
        forall|j: int| 0 <= j < all.len() ==> (#[trigger] all[j]).id@ != id,
    ensures
        track_index(all, id) is None,
    decreases all.len(),
{
    if all.len() > 0 {
        lemma_track_index_none(all.drop_last(), id);
    }
}

/// The tracks of the candidates the rules kept ([`resolved_indices`]).
pub fn resolve_tracks(all: &[LibraryTrack], kept: &[Candidate]) -> (res: Vec<LibraryTrack>)
    ensures
        res@.len() == resolved_indices(all@, kept@).len(),
        forall|i: int|
            0 <= i < res@.len() ==> {
                let k = #[trigger] resolved_indices(all@, kept@)[i];
                0 <= k && k < all@.len()
            },
        forall|i: int|
            0 <= i < res@.len() ==> same_track(
                #[trigger] res@[i],
                all@[resolved_indices(all@, kept@)[i]],
            ),
{
    let ghost kv = kept@;
    let mut out: Vec<LibraryTrack> = Vec::new();
    let mut i: usize = 0;
    assert(kv.take(0) =~= Seq::<Candidate>::empty());
    while i < kept.len()
        invariant
            i <= kv.len(),
            kv == kept@,
            out@.len() == resolved_indices(all@, kv.take(i as int)).len(),
            forall|j: int|
                0 <= j < out@.len() ==> same_track(
                    #[trigger] out@[j],
                    all@[resolved_indices(all@, kv.take(i as int))[j]],
                ),
        decreases kept.len() - i,
    {
        let ghost prev = resolved_indices(all@, kv.take(i as int));
        assert(kv.take(i + 1).drop_last() =~= kv.take(i as int));
        assert(kv.take(i + 1).last() == kv[i as int]);
        proof {
            lemma_track_index_in_range(all@, kv[i as int].id@);
        }
        match find_track(all, kept[i].id.as_str()) {
            Some(k) => {
                assert(track_index(all@, kv[i as int].id@) == Some(k as int));
                assert(0 <= k < all@.len());
                let ghost before = out@;
                out.push(copy_track(&all[k]));
                let ghost now = resolved_indices(all@, kv.take(i + 1));
                assert(now == prev.push(k as int));
                assert forall|j: int| 0 <= j < out@.len() implies same_track(
                    #[trigger] out@[j],
                    all@[now[j]],
                ) by {
                    if j < before.len() {
                        assert(out@[j] == before[j]);
                        assert(now[j] == prev[j]);
                    }
                }
            },
            None => {
                assert(resolved_indices(all@, kv.take(i + 1)) == prev);
            },
        }
        i += 1;
    }
    assert(kv.take(kept.len() as int) =~= kv);
    assert(resolved_indices(all@, kv.take(kept.len() as int)) == resolved_indices(all@, kept@));
    proof {
        lemma_resolved_in_range(all@, kept@);
    }
    out
}

proof fn lemma_resolved_in_range(all: Seq<LibraryTrack>, kept: Seq<Candidate>)
    ensures
        forall|i: int|
            0 <= i < resolved_indices(all, kept).len() ==> {
                let k = #[trigger] resolved_indices(all, kept)[i];
                0 <= k && k < all.len()
            },
    decreases kept.len(),
{
    if kept.len() > 0 {
        let prev = resolved_indices(all, kept.drop_last());
        lemma_resolved_in_range(all, kept.drop_last());
        lemma_track_index_in_range(all, kept.last().id@);
        let r = resolved_indices(all, kept);
        assert forall|i: int| 0 <= i < r.len() implies {
            let k = #[trigger] r[i];
            0 <= k && k < all.len()
        } by {
            if i < prev.len() {
                assert(r[i] == prev[i]);
            }
        }
    }
}

} // verus!
