use rockboxd::library::{LibraryAlbum, LibraryTrack};
use rockboxd::subsonic_xml::{
    album_child_xml, album_of, album_xml, artist_child_xml, artist_index, directory_xml,
    indexes_xml, music_folders_xml, playlists_xml, removed_track_ids, scan_status_xml,
    song_of_track, song_xml, user_xml, IndexArtist, PlaylistSummary,
};

fn track() -> LibraryTrack {
    LibraryTrack {
        id: "t1".to_string(),
        path: "/m/Abba/Gold/01 Dancing Queen.FLAC".to_string(),
        title: "Dancing \"Queen\"".to_string(),
        album: "Gold".to_string(),
        artist: "ABBA & co".to_string(),
        album_id: "al9".to_string(),
        artist_id: String::new(),
        genre: Some("Pop".to_string()),
        track_number: None,
        disc_number: Some(1),
        year: Some(1992),
        filesize: 1234,
        length: 231_999,
        bitrate: 900,
        created_at: 700_000_000,
    }
}

fn artist(id: &str, name: &str) -> IndexArtist {
    IndexArtist { id: id.to_string(), name: name.to_string(), album_count: 1 }
}

#[test]
fn a_track_as_a_song_child() {
    let s = song_of_track(&track());
    assert_eq!(s.parent, "al9");
    assert_eq!(s.cover_art, "al-al9");
    assert_eq!(s.content_type, "audio/flac");
    assert_eq!(s.suffix, "flac");
    assert_eq!(s.duration, 231);
    assert_eq!(s.album_id.as_deref(), Some("al9"));
    assert!(s.artist_id.is_none());
    assert_eq!(
        song_xml(&s),
        "<song id=\"t1\" parent=\"al9\" title=\"Dancing &quot;Queen&quot;\" album=\"Gold\" artist=\"ABBA &amp; co\" isDir=\"false\" coverArt=\"al-al9\" duration=\"231\" bitRate=\"900\" track=\"0\" contentType=\"audio/flac\" suffix=\"flac\" albumId=\"al9\" artistId=\"\"/>"
    );
}

#[test]
fn an_album_child() {
    let a = LibraryAlbum { id: "al9".to_string(), title: "Gold".to_string(), artist: "ABBA".to_string(), artist_id: "ar1".to_string(), year: 0 };
    let c = album_of(&a, 19);
    assert!(c.year.is_none());
    assert_eq!(album_xml(&c), "<album id=\"al9\" name=\"Gold\" artist=\"ABBA\" artistId=\"ar1\" songCount=\"19\" coverArt=\"al-al9\"/>");
    assert_eq!(album_child_xml("ar1", &a), "<child id=\"al9\" parent=\"ar1\" isDir=\"true\" title=\"Gold\" artist=\"ABBA\" coverArt=\"al-al9\"/>");
}

#[test]
fn artists_are_grouped_by_initial() {
    let artists = vec![
        artist("1", "beatles"),
        artist("2", "ABBA"),
        artist("3", "12 Stones"),
        artist("4", ""),
        artist("5", "émile"),
        artist("6", "Blur"),
    ];
    let groups = artist_index(&artists);
    let names: Vec<&str> = groups.iter().map(|g| g.name.as_str()).collect();
    assert_eq!(names, vec!["#", "A", "B", "É"]);
    let ids = |i: usize| groups[i].artists.iter().map(|a| a.id.as_str()).collect::<Vec<_>>();
    assert_eq!(ids(0), vec!["3", "4"]);
    assert_eq!(ids(2), vec!["1", "6"]);
    assert!(artist_index(&[]).is_empty());
    let xml = indexes_xml(&groups[1..2]);
    assert_eq!(
        xml,
        "<indexes lastModified=\"0\" ignoredArticles=\"The An A Die Das Ein\"><index name=\"A\"><artist id=\"2\" name=\"ABBA\"/></index></indexes>"
    );
}

#[test]
fn music_directories() {
    let c = artist_child_xml("ar1", "AC<DC");
    assert_eq!(c, "<child id=\"ar1\" parent=\"1\" isDir=\"true\" title=\"AC&lt;DC\" coverArt=\"ar-ar1\"/>");
    assert_eq!(
        directory_xml("1", "Music", &[c.clone(), "<x/>".to_string()]),
        format!("<directory id=\"1\" name=\"Music\">{}<x/></directory>", c)
    );
}

#[test]
fn folders_user_scan_and_playlists() {
    assert_eq!(music_folders_xml("/m & n"), "<musicFolders><musicFolder id=\"1\" name=\"/m &amp; n\"/></musicFolders>");
    assert!(user_xml("ann").starts_with("<user username=\"ann\" scrobblingEnabled=\"true\" adminRole=\"true\""));
    assert!(user_xml("ann").ends_with("shareRole=\"false\"><folder>1</folder></user>"));
    assert_eq!(scan_status_xml(true), "<scanStatus scanning=\"true\" count=\"0\"/>");
    assert_eq!(scan_status_xml(false), "<scanStatus scanning=\"false\" count=\"0\"/>");
    let ps = vec![PlaylistSummary { id: "p1".to_string(), name: "Mix".to_string(), song_count: 3 }];
    assert_eq!(playlists_xml(&ps), "<playlists><playlist id=\"p1\" name=\"Mix\" songCount=\"3\"/></playlists>");
    assert_eq!(playlists_xml(&[]), "<playlists></playlists>");
}

#[test]
fn removed_positions_name_tracks() {
    let ids: Vec<String> = ["a", "b", "c"].iter().map(|s| s.to_string()).collect();
    let idx: Vec<String> = ["2", "x", "9", "+0", "-1", "1"].iter().map(|s| s.to_string()).collect();
    assert_eq!(removed_track_ids(&ids, &idx), vec!["c".to_string(), "a".to_string(), "b".to_string()]);
}
