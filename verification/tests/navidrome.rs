use rockboxd::navidrome::{
    artist_entry, auth_params, compute_token, cover_art_url, directory_entry, folder_entry,
    parse_base_url, percent_decode, percent_encode, rest_url, stream_url, ArtistEntry,
    DirectoryChild, FolderId, MusicFolder, SongEntry,
};

#[test]
fn base_url_with_credentials() {
    let (base, u, t, s) = parse_base_url("http://nd:4533?nd_user=bob&nd_token=abc&nd_salt=xyz");
    assert_eq!(base, "http://nd:4533");
    assert_eq!(u.as_deref(), Some("bob"));
    assert_eq!(t.as_deref(), Some("abc"));
    assert_eq!(s.as_deref(), Some("xyz"));
    let (base, u, t, s) = parse_base_url("http://nd:4533?nd_user=&nd_salt=x");
    assert_eq!(base, "http://nd:4533");
    assert_eq!((u, t, s.as_deref()), (None, None, Some("x")));
    let (base, u, _, _) = parse_base_url("http://nd:4533");
    assert_eq!((base.as_str(), u), ("http://nd:4533", None));
}

#[test]
fn percent_coding_round_trips() {
    assert_eq!(percent_encode("a b/é~"), "a%20b%2f%c3%a9~");
    assert_eq!(percent_decode("a%20b%2f%c3%a9~"), "a b/é~");
    assert_eq!(percent_decode("100%"), "100%");
    assert_eq!(percent_decode("%zz%4"), "%zz%4");
    let s = "http://host:1/x?y=1&z=ü";
    assert_eq!(percent_decode(&percent_encode(s)), s);
}

#[test]
fn token_and_urls() {
    assert_eq!(compute_token("sesame", "c19b2d"), "26719a1196d2a940705a59634eb18eab");
    assert_eq!(auth_params("u", "t", "s"), "u=u&t=t&s=s&v=1.16.1&c=rockbox&f=json");
    assert_eq!(
        rest_url("http://nd/", "getIndexes", "musicFolderId=1&", "u", "t", "s"),
        "http://nd/rest/getIndexes.view?musicFolderId=1&u=u&t=t&s=s&v=1.16.1&c=rockbox&f=json"
    );
    assert_eq!(
        cover_art_url("http://nd//", "u", "t", "s", "al-1", Some(300)),
        "http://nd/rest/getCoverArt.view?id=al-1&size=300&u=u&t=t&s=s&v=1.16.1&c=rockbox&f=json"
    );
    assert_eq!(
        stream_url("http://nd", "u", "t", "s", "42"),
        "http://nd/rest/stream.view?id=42&u=u&t=t&s=s&v=1.16.1&c=rockbox&f=json"
    );
}

#[test]
fn listing_entries() {
    let f = folder_entry(&MusicFolder { id: FolderId::Number(3), name: None });
    assert_eq!((f.id.as_str(), f.name.as_str(), f.is_container), ("3", "3", true));
    let g = folder_entry(&MusicFolder { id: FolderId::Text("x".to_string()), name: Some("Music".to_string()) });
    assert_eq!((g.id.as_str(), g.name.as_str()), ("x", "Music"));
    let d = DirectoryChild { id: "9".to_string(), title: None, name: Some("Dir".to_string()), is_dir: Some(true) };
    assert_eq!(d.display_name(), "Dir");
    let e = directory_entry("http://nd", "u", "t", "s", &d);
    assert!(e.is_container && e.stream_url.is_none());
    let song = DirectoryChild { id: "5".to_string(), title: Some("Song".to_string()), name: None, is_dir: None };
    let e = directory_entry("http://nd", "u", "t", "s", &song);
    assert_eq!(e.name, "Song");
    assert_eq!(e.stream_url.as_deref(), Some("http://nd/rest/stream.view?id=5&u=u&t=t&s=s&v=1.16.1&c=rockbox&f=json"));
    let a = artist_entry(&ArtistEntry { id: "ar1".to_string(), name: "X".to_string() });
    assert_eq!((a.id.as_str(), a.name.as_str(), a.is_container), ("ar1", "X", true));
    let s = SongEntry {
        id: "1".to_string(),
        title: "T".to_string(),
        artist: "A".to_string(),
        artist_id: "a".to_string(),
        album: "L".to_string(),
        album_id: "l".to_string(),
        cover_art: None,
        duration: 60,
        track: Some(2),
        year: None,
    }
    .into_song();
    assert_eq!((s.title.as_str(), s.duration, s.track), ("T", 60, Some(2)));
}

#[test]
fn salts_are_the_high_half_of_the_hash() {
    assert_eq!(rockboxd::navidrome::salt_from_hash(0x0123_4567_89ab_cdef), "01234567");
    assert_eq!(rockboxd::navidrome::salt_from_hash(0xff), "00000000");
}
