//! The decisions of the playback broker loop: which file a playing track is
//! looked up by, when a finished track counts as played or skipped, when
//! the playing track is scrobbled (once while it stays past the mark), and
//! when the playlist has to be sent to clients again.
use vstd::prelude::*;

use crate::codec::hex_lower;
use crate::codec::lower_hex;
use crate::outside::md5_digest;
use crate::outside::md5_of;
use crate::text::chars_eq;
use crate::text::chars_of;
use crate::text::find_last_char;
use crate::text::find_last_char_exec;
use crate::text::opt_chars;
use crate::text::slice_of;
use crate::text::string_of;
use vstd::utf8::encode_utf8;

verus! {

/// Tracks no longer than this (ms) do not count for play statistics.
pub const STATS_MIN_LENGTH_MS: u64 = 10000;

/// A track left before this (ms) does not count for play statistics.
pub const STATS_MIN_ELAPSED_MS: u64 = 2000;

/// Tracks no longer than this (ms) are not scrobbled.
pub const SCROBBLE_MIN_LENGTH_MS: u64 = 30000;

/// Whether `elapsed` is at least 40% of `length`.
pub open spec fn played_enough(elapsed: u64, length: u64) -> bool {
    5 * elapsed >= 2 * length
}

/// How the previous track is recorded when another starts.
pub enum StatsRecord {
    Play(String),
    Skip(String),
}

/// A record as `(played, track id)`.
pub open spec fn record_view(r: Option<StatsRecord>) -> Option<(bool, Seq<char>)> {
    match r {
        Some(StatsRecord::Play(id)) => Some((true, id@)),
        Some(StatsRecord::Skip(id)) => Some((false, id@)),
        None => None,
    }
}

/// What the broker does about the track it sees playing.
pub struct TrackStep {
    /// Record the previous track's play or skip.
    pub record: Option<StatsRecord>,
    /// The track is new: monitor it for scrobbling from now on.
    pub monitor_new: bool,
    /// Scrobble the monitored track.
    pub scrobble: bool,
}

/// What changed in the playlist since the last look.
#[derive(Debug, Clone, Copy, PartialEq, Eq, Structural)]
pub enum PlaylistChange {
    /// Nothing: sleep and look again.
    Unchanged,
    /// Only the current index moved.
    IndexMoved,
    /// The tracks changed: send them again.
    ContentChanged,
}

/// What the broker remembers between ticks.
pub struct BrokerState {
    /// The path of the track monitored for scrobbling.
    pub monitored_path: Option<String>,
    /// The track whose play statistics are pending.
    pub last_stats_track_id: Option<String>,
    pub last_stats_elapsed: u64,
    pub last_stats_length: u64,
    /// Tracks scrobbled while they stay past the mark.
    pub scrobbled: Vec<String>,
    pub last_playlist_index: i32,
    pub last_playlist_amount: i32,
}

/// The ids of a vector of strings.
pub open spec fn texts(v: Seq<String>) -> Seq<Seq<char>> {
    v.map_values(|s: String| s@)
}

/// The record of the previous track when another starts: none unless it
/// was longer than 10 s and left after 2 s; a play from 40% on, a skip
/// before.
pub open spec fn stats_record(prev: Option<Seq<char>>, elapsed: u64, length: u64) -> Option<(bool, Seq<char>)> {
    match prev {
        Some(id) => if length > STATS_MIN_LENGTH_MS && elapsed > STATS_MIN_ELAPSED_MS {
            Some((played_enough(elapsed, length), id))
        } else {
            None
        },
        None => None,
    }
}

/// Whether a track is past the scrobbling mark: longer than 30 s and 40%
/// played.
pub open spec fn past_scrobble_mark(elapsed: u64, length: u64) -> bool {
    length > SCROBBLE_MIN_LENGTH_MS && played_enough(elapsed, length)
}

impl BrokerState {
    /// The state of a broker that has seen nothing.
    pub fn new() -> (res: BrokerState)
        ensures
            res.monitored_path is None,
            res.last_stats_track_id is None,
            res.scrobbled@.len() == 0,
            res.last_playlist_index == i32::MIN,
            res.last_playlist_amount == i32::MIN,
    {
        BrokerState {
            monitored_path: None,
            last_stats_track_id: None,
            last_stats_elapsed: 0,
            last_stats_length: 0,
            scrobbled: Vec::new(),
            last_playlist_index: i32::MIN,
            last_playlist_amount: i32::MIN,
        }
    }

    /// Takes in the track seen playing, known to the library as `id`, at
    /// `elapsed` of `length` ms: when it is a new track, the previous one's
    /// play or skip is recorded and the new one monitored; the track is
    /// scrobbled once when past the mark, and may be again only after it
    /// fell back below it.
    pub fn on_known_track(&mut self, path: &str, id: &str, elapsed: u64, length: u64) -> (res: TrackStep)
        ensures
            ({
                let changed = match old(self).monitored_path {
                    Some(p) => p@ != path@,
                    None => true,
                };
                &&& res.monitor_new == changed
                &&& record_view(res.record) == if changed {
                    stats_record(
                        opt_chars(old(self).last_stats_track_id),
                        old(self).last_stats_elapsed,
                        old(self).last_stats_length,
                    )
                } else {
                    None
                }
            }),
            opt_chars(final(self).monitored_path) == Some(path@),
            opt_chars(final(self).last_stats_track_id) == Some(id@),
            final(self).last_stats_elapsed == elapsed,
            final(self).last_stats_length == length,
            past_scrobble_mark(elapsed, length) ==> {
                &&& res.scrobble == !texts(old(self).scrobbled@).contains(id@)
                &&& texts(final(self).scrobbled@) == if res.scrobble {
                    texts(old(self).scrobbled@).push(id@)
                } else {
                    texts(old(self).scrobbled@)
                }
            },
            !past_scrobble_mark(elapsed, length) ==> !res.scrobble && final(self).scrobbled@.len()
                == 0,
            final(self).last_playlist_index == old(self).last_playlist_index,
            final(self).last_playlist_amount == old(self).last_playlist_amount,
    {
        let pc = chars_of(path);
        let changed = match &self.monitored_path {
            Some(p) => !chars_eq(&chars_of(p.as_str()), &pc),
            None => true,
        };
        let mut record: Option<StatsRecord> = None;
        if changed {
            if let Some(prev) = self.last_stats_track_id.take() {
                if self.last_stats_length > STATS_MIN_LENGTH_MS && self.last_stats_elapsed
                    > STATS_MIN_ELAPSED_MS {
                    if 5 * (self.last_stats_elapsed as u128) >= 2 * (self.last_stats_length as u128) {
                        record = Some(StatsRecord::Play(prev));
                    } else {
                        record = Some(StatsRecord::Skip(prev));
                    }
                }
            }
            self.monitored_path = Some(string_of(&pc));
        }
        self.last_stats_track_id = Some(string_of(&chars_of(id)));
        self.last_stats_elapsed = elapsed;
        self.last_stats_length = length;
        let mut scrobble = false;
        if length > SCROBBLE_MIN_LENGTH_MS && 5 * (elapsed as u128) >= 2 * (length as u128) {
            let ic = chars_of(id);
            let ghost before = texts(self.scrobbled@);
            let mut found = false;
            let mut i: usize = 0;
            while i < self.scrobbled.len()
                invariant
                    i <= self.scrobbled@.len(),
                    before == texts(self.scrobbled@),
                    found == exists|j: int| 0 <= j < i && before[j] == ic@,
                decreases self.scrobbled.len() - i,
            {
                let eq = chars_eq(&chars_of(self.scrobbled[i].as_str()), &ic);
                assert(before[i as int] == self.scrobbled@[i as int]@);
                if eq {
                    found = true;
                }
                assert(found == exists|j: int| 0 <= j < i + 1 && before[j] == ic@) by {
                    if found && !eq {
                        let j = choose|j: int| 0 <= j < i && before[j] == ic@;
                        assert(0 <= j < i + 1 && before[j] == ic@);
                    }
                    if eq {
                        assert(0 <= i < i + 1 && before[i as int] == ic@);
                    }
                }
                i += 1;
            }
            assert(found == before.contains(ic@));
            if !found {
                self.scrobbled.push(string_of(&ic));
                assert(texts(self.scrobbled@) =~= before.push(ic@));
                scrobble = true;
            }
        } else {
            self.scrobbled.clear();
        }
        TrackStep { record, monitor_new: changed, scrobble }
    }

    /// Takes in that nothing is playing: no track is monitored any more.
    pub fn on_no_track(&mut self)
        ensures
            final(self).monitored_path is None,
            final(self).last_stats_track_id == old(self).last_stats_track_id,
            final(self).last_stats_elapsed == old(self).last_stats_elapsed,
            final(self).last_stats_length == old(self).last_stats_length,
            final(self).scrobbled@ == old(self).scrobbled@,
            final(self).last_playlist_index == old(self).last_playlist_index,
            final(self).last_playlist_amount == old(self).last_playlist_amount,
    {
        self.monitored_path = None;
    }

    /// Takes in the playlist's size and current index and whether it was
    /// marked changed: says what changed, and remembers them when anything
    /// did.
    pub fn playlist_step(&mut self, amount: i32, index: i32, dirty: bool) -> (res: PlaylistChange)
        ensures
            res == if amount != old(self).last_playlist_amount || dirty {
                PlaylistChange::ContentChanged
            } else if index != old(self).last_playlist_index {
                PlaylistChange::IndexMoved
            } else {
                PlaylistChange::Unchanged
            },
            res != PlaylistChange::Unchanged ==> final(self).last_playlist_index == index
                && final(self).last_playlist_amount == amount,
            res == PlaylistChange::Unchanged ==> final(self).last_playlist_index == old(
                self,
            ).last_playlist_index && final(self).last_playlist_amount == old(
                self,
            ).last_playlist_amount,
            final(self).monitored_path == old(self).monitored_path,
            final(self).last_stats_track_id == old(self).last_stats_track_id,
            final(self).scrobbled@ == old(self).scrobbled@,
    {
        let index_changed = index != self.last_playlist_index;
        let content_changed = amount != self.last_playlist_amount || dirty;
        if !index_changed && !content_changed {
            return PlaylistChange::Unchanged;
        }
        self.last_playlist_index = index;
        self.last_playlist_amount = amount;
        if content_changed {
            PlaylistChange::ContentChanged
        } else {
            PlaylistChange::IndexMoved
        }
    }
}

/// A text field of the playing track: the library's value where the live
/// one is empty and the track is loaded (its length is known), else the
/// live one.
pub fn text_or_library(live: &str, library: &str, length: u64) -> (res: String)
    ensures
        res@ == if length > 0 && live@.len() == 0 {
            library@
        } else {
            live@
        },
{
    let l = chars_of(live);
    if length > 0 && l.len() == 0 {
        string_of(&chars_of(library))
    } else {
        string_of(&l)
    }
}

/// The file a playing track is looked up by: the playlist entry's file name
/// where the playlist has a current entry with one, the track's own path
/// otherwise.
pub fn lookup_path(playlist_index: i32, entry_filename: &str, track_path: &str) -> (res: String)
    ensures
        res@ == if playlist_index >= 0 && entry_filename@.len() > 0 {
            entry_filename@
        } else {
            track_path@
        },
{
    let f = chars_of(entry_filename);
    if playlist_index >= 0 && f.len() > 0 {
        string_of(&f)
    } else {
        string_of(&chars_of(track_path))
    }
}

/// The library key of a file path: the MD5 of its UTF-8 bytes in lower-case
/// hex.
pub fn path_hash(path: &str) -> (res: String)
    ensures
        res@ == hex_lower(md5_of(encode_utf8(path@))),
{
    let digest = md5_digest(path.as_bytes());
    string_of(&lower_hex(&digest))
}

/// The id of the local track a stream URL names: its last `/` segment,
/// where not empty.
pub fn art_fallback_id(path: &str) -> (res: Option<String>)
    ensures
        ({
            let seg = match find_last_char(path@, '/') {
                Some(i) => path@.skip(i + 1 as int),
                None => path@,
            };
            opt_chars(res) == if seg.len() > 0 {
                Some(seg)
            } else {
                None
            }
        }),
{
    let p = chars_of(path);
    let seg = match find_last_char_exec(&p, '/') {
        Some(i) => {
            assert(i < p.len());
            slice_of(&p, i + 1, p.len())
        },
        None => {
            assert(p@.subrange(0, p@.len() as int) =~= p@);
            slice_of(&p, 0, p.len())
        },
    };
    if seg.len() > 0 {
        Some(string_of(&seg))
    } else {
        None
    }
}

/// The index sent with a playlist of `len` tracks by an external player:
/// the second to last, or 0.
pub fn external_playlist_index(len: usize) -> (res: i32)
    requires
        len <= i32::MAX,
    ensures
        res == if len >= 2 {
            len - 2
        } else {
            0
        },
{
    if len >= 2 {
        (len - 2) as i32
    } else {
        0
    }
}

} // verus!
