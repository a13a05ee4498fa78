//! The records of the music library that the answers and playlists are
//! made of.
use vstd::prelude::*;

verus! {

/// A track of the music library.
pub struct LibraryTrack {
    pub id: String,
    pub path: String,
    pub title: String,
    pub album: String,
    pub artist: String,
    pub album_id: String,
    pub artist_id: String,
    pub genre: Option<String>,
    pub track_number: Option<u32>,
    pub disc_number: Option<u32>,
    pub year: Option<u32>,
    /// Size of the file in bytes.
    pub filesize: u64,
    /// Length in milliseconds.
    pub length: u64,
    pub bitrate: u32,
    /// When the track was added, in seconds since the epoch.
    pub created_at: i64,
}

/// An album of the music library.
pub struct LibraryAlbum {
    pub id: String,
    pub title: String,
    pub artist: String,
    pub artist_id: String,
    /// 0 where unknown.
    pub year: u32,
}

} // verus!
