use rockboxd::broker::{
    art_fallback_id, external_playlist_index, lookup_path, path_hash, text_or_library,
    BrokerState, PlaylistChange, StatsRecord,
};

#[test]
fn plays_and_skips_are_recorded_when_the_track_changes() {
    let mut b = BrokerState::new();
    let s = b.on_known_track("/a.mp3", "a", 0, 200_000);
    assert!(s.monitor_new && s.record.is_none() && !s.scrobble);
    let s = b.on_known_track("/a.mp3", "a", 100_000, 200_000);
    assert!(!s.monitor_new && s.record.is_none());
    let s = b.on_known_track("/b.mp3", "b", 0, 200_000);
    assert!(s.monitor_new);
    assert!(matches!(s.record, Some(StatsRecord::Play(id)) if id == "a"));
    let s = b.on_known_track("/c.mp3", "c", 0, 200_000);
    assert!(s.record.is_none(), "left before 2 s: not counted");
    b.on_known_track("/c.mp3", "c", 50_000, 200_000);
    let s = b.on_known_track("/d.mp3", "d", 0, 200_000);
    assert!(matches!(s.record, Some(StatsRecord::Skip(id)) if id == "c"));
}

#[test]
fn scrobbles_once_past_the_mark() {
    let mut b = BrokerState::new();
    assert!(!b.on_known_track("/a.mp3", "a", 79_999, 200_000).scrobble);
    assert!(b.on_known_track("/a.mp3", "a", 80_000, 200_000).scrobble);
    assert!(!b.on_known_track("/a.mp3", "a", 90_000, 200_000).scrobble);
    // Short tracks are never scrobbled.
    assert!(!b.on_known_track("/s.mp3", "s", 30_000, 30_000).scrobble);
    // Falling back below the mark allows it again.
    assert!(b.on_known_track("/a.mp3", "a", 150_000, 200_000).scrobble);
    b.on_no_track();
    assert!(b.monitored_path.is_none());
}

#[test]
fn playlist_changes() {
    let mut b = BrokerState::new();
    assert_eq!(b.playlist_step(3, 0, false), PlaylistChange::ContentChanged);
    assert_eq!(b.playlist_step(3, 0, false), PlaylistChange::Unchanged);
    assert_eq!(b.playlist_step(3, 1, false), PlaylistChange::IndexMoved);
    assert_eq!(b.playlist_step(3, 1, true), PlaylistChange::ContentChanged);
    let mut fresh = BrokerState::new();
    assert_eq!(fresh.playlist_step(-1, -1, false), PlaylistChange::ContentChanged);
    assert_eq!((b.last_playlist_amount, b.last_playlist_index), (3, 1));
}

#[test]
fn lookups() {
    assert_eq!(lookup_path(2, "http://x/tracks/1", "/tmp/a"), "http://x/tracks/1");
    assert_eq!(lookup_path(-1, "http://x/tracks/1", "/tmp/a"), "/tmp/a");
    assert_eq!(lookup_path(0, "", "/tmp/a"), "/tmp/a");
    assert_eq!(path_hash(""), "d41d8cd98f00b204e9800998ecf8427e");
    assert_eq!(art_fallback_id("http://h:6063/tracks/abc"), Some("abc".to_string()));
    assert_eq!(art_fallback_id("http://h/"), None);
    assert_eq!(external_playlist_index(5), 3);
    assert_eq!(external_playlist_index(1), 0);
}

#[test]
fn library_texts_fill_only_loaded_tracks() {
    assert_eq!(text_or_library("", "Db Title", 1000), "Db Title");
    assert_eq!(text_or_library("", "Db Title", 0), "");
    assert_eq!(text_or_library("Live", "Db Title", 1000), "Live");
}
