use rockboxd::fw_bus::FwCmd;
use rockboxd::server::{
    devices_match, fetches_metadata, internal_track_id, is_http, is_stream_wav, pick_metadata,
    trim_path, hydrate_entry_from_track, DeviceKey, PlaylistEntry, TrackMetadata, FfRewindQuery,
    InsertTracks, ListQuery, PlayQuery, SearchQuery, ShuffleQuery, StartPlaylistQuery, TreeQuery,
};

fn dev(id: &str, service: &str, ip: &str) -> DeviceKey {
    DeviceKey { id: id.to_string(), service: service.to_string(), ip: ip.to_string() }
}

#[test]
fn query_defaults() {
    let c: FwCmd<(), ()> = PlayQuery { elapsed: None, offset: Some(9) }.command(None);
    assert!(matches!(c, FwCmd::Play { elapsed: 0, offset: 9, reply: None }));
    let f: FwCmd<u8, ()> = FfRewindQuery { newtime: None }.command(Some(1));
    assert!(matches!(f, FwCmd::FfRewind { newtime: 0, reply: Some(1) }));
    assert_eq!(StartPlaylistQuery { start_index: Some(2), elapsed: None, offset: None }.arguments(), (2, 0, 0));
    assert_eq!(ShuffleQuery { start_index: None }.start_index(), 0);
    assert_eq!(SearchQuery { q: None }.term(), "");
    assert_eq!(ListQuery { folder_id: Some(String::new()) }.folder(), None);
    assert_eq!(ListQuery { folder_id: Some("f".to_string()) }.folder().as_deref(), Some("f"));
    let t = TreeQuery { q: None, show_hidden: Some("true".to_string()) };
    assert!(t.shows_hidden());
    assert_eq!(t.directory("/home/me/Music"), "/home/me/Music");
    assert!(!TreeQuery { q: Some("/x".to_string()), show_hidden: Some("1".to_string()) }.shows_hidden());
}

#[test]
fn track_paths() {
    assert_eq!(trim_path("  /m/a.mp3#t=1 "), "/m/a.mp3");
    let ins = InsertTracks { position: 0, tracks: vec![" a ".to_string(), "b#c".to_string()], directory: None, shuffle: None };
    assert_eq!(ins.trimmed_tracks(), vec!["a", "b"]);
    assert_eq!(internal_track_id("http://10.0.0.1:6063/tracks/abc"), Some("abc".to_string()));
    assert_eq!(internal_track_id("http://10.0.0.1:6063/tracks/abc/x"), None);
    assert_eq!(internal_track_id("http://10.0.0.1:6063/tracks/"), None);
    assert_eq!(internal_track_id("not a url"), None);
    assert!(is_stream_wav("http://h:7879/stream.wav"));
    assert!(!is_stream_wav("http://h:7879/stream.mp3"));
}

#[test]
fn device_matching() {
    assert!(devices_match(&dev("1", "a", ""), &dev("1", "b", "")));
    assert!(!devices_match(&dev("1", "a", "x"), &dev("2", "b", "x")));
    assert!(devices_match(&dev("1", "fifo", ""), &dev("2", "fifo", "")));
    assert!(devices_match(&dev("1", "chromecast", "10.0.0.5"), &dev("2", "chromecast", "10.0.0.5")));
    assert!(!devices_match(&dev("1", "chromecast", ""), &dev("2", "chromecast", "")));
}

#[test]
fn playlist_metadata_choice() {
    assert!(is_http("https://x/y.mp3"));
    assert!(!is_http("/music/y.mp3"));
    assert_eq!(pick_metadata(Some(1), true, Some(2)), Some(1));
    assert_eq!(pick_metadata(Some(1), false, Some(2)), Some(2));
    assert_eq!(pick_metadata(None, false, Some(2)), Some(2));
    assert_eq!(pick_metadata(Some(1), false, None), Some(1));
    assert!(fetches_metadata(false, false, "http://radio/x.mp3"));
    assert!(!fetches_metadata(false, false, "http://127.0.0.1:6063/stream.wav"));
    assert!(!fetches_metadata(true, false, "http://radio/x.mp3"));
    assert!(!fetches_metadata(false, false, "/music/x.mp3"));
}

#[test]
fn hydrate_fills_only_what_is_missing() {
    let mut e = PlaylistEntry {
        title: "Mine".to_string(),
        artist: String::new(),
        album: String::new(),
        albumartist: String::new(),
        composer: "C".to_string(),
        length: 0,
        filesize: 5,
        bitrate: 0,
        frequency: 0,
        tracknum: 0,
        discnum: 2,
        year: 0,
        year_string: String::new(),
        album_art: Some("old.jpg".to_string()),
        album_id: None,
        artist_id: None,
        genre_id: None,
        id: None,
    };
    let t = TrackMetadata {
        title: "Theirs".to_string(),
        artist: "Art".to_string(),
        album: "Alb".to_string(),
        album_artist: "AA".to_string(),
        composer: "Z".to_string(),
        length: 1000,
        filesize: 99,
        bitrate: 320,
        frequency: 44100,
        track_number: Some(7),
        disc_number: 1,
        year: None,
        year_string: Some("1999".to_string()),
        album_art: None,
        album_id: "al".to_string(),
        artist_id: "ar".to_string(),
        genre_id: "g".to_string(),
        id: "t42".to_string(),
    };
    hydrate_entry_from_track(&mut e, &t);
    assert_eq!(e.title, "Mine");
    assert_eq!(e.artist, "Art");
    assert_eq!(e.album, "Alb");
    assert_eq!(e.albumartist, "AA");
    assert_eq!(e.composer, "C");
    assert_eq!((e.length, e.filesize, e.bitrate, e.frequency), (1000, 5, 320, 44100));
    assert_eq!((e.tracknum, e.discnum, e.year), (7, 2, 0));
    assert_eq!(e.year_string, "1999");
    assert_eq!(e.album_art.as_deref(), Some("old.jpg"));
    assert_eq!(e.album_id.as_deref(), Some("al"));
    assert_eq!(e.artist_id.as_deref(), Some("ar"));
    assert_eq!(e.genre_id.as_deref(), Some("g"));
    assert_eq!(e.id.as_deref(), Some("t42"));
    let once = (e.title.clone(), e.length, e.album_art.clone(), e.id.clone());
    hydrate_entry_from_track(&mut e, &t);
    assert_eq!((e.title.clone(), e.length, e.album_art.clone(), e.id.clone()), once);
}
