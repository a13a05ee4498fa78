use rockboxd::subsonic::{
    art_location, art_mime, art_ref, check_auth, content_range_value, error_xml_body,
    get_now_playing, hex_decode, mime_for_path, multi_param, now_playing_xml, ok_xml_body,
    remote_art_mime, safe_filename, set_now_playing, single_param, stream_range, wants_xml,
    xml_escape, subsonic_config, ArtLocation, ArtRef, CommonParams, IdParam, NowPlayingInfo,
};

fn info() -> NowPlayingInfo {
    NowPlayingInfo {
        track_id: Some("t1".to_string()),
        title: "A & B".to_string(),
        artist: "Art".to_string(),
        album: "Alb".to_string(),
        path: "/m/a.flac".to_string(),
        elapsed_ms: 1000,
        length_ms: 215_999,
        album_id: None,
        artist_id: None,
        album_art: None,
        bitrate: 900,
        year: 2001,
        track_number: 3,
        username: "admin".to_string(),
    }
}

#[test]
fn token_authentication_of_the_api_example() {
    // The example of the Subsonic API documentation: password "sesame",
    // salt "c19b2d".
    assert!(check_auth("admin", "sesame", Some("admin"), None, Some("26719a1196d2a940705a59634eb18eab"), Some("c19b2d")));
    assert!(!check_auth("admin", "sesame", Some("admin"), None, Some("26719a1196d2a940705a59634eb18eac"), Some("c19b2d")));
    assert!(!check_auth("admin", "sesame", Some("bob"), Some("sesame"), None, None));
    assert!(!check_auth("admin", "sesame", None, Some("sesame"), None, None));
}

#[test]
fn plain_and_hex_passwords() {
    assert!(check_auth("admin", "sesame", Some("admin"), Some("sesame"), None, None));
    assert!(check_auth("admin", "sesame", Some("admin"), Some("enc:736573616d65"), None, None));
    assert!(check_auth("admin", "sesame", Some("admin"), Some("enc:736573616D65"), None, None));
    assert!(!check_auth("admin", "sesame", Some("admin"), Some("enc:73657"), None, None));
    // A hex part that does not decode is compared as it is.
    assert!(check_auth("admin", "enc:zz", Some("admin"), Some("enc:zz"), None, None));
    // A token without a salt falls back to the password.
    assert!(check_auth("admin", "sesame", Some("admin"), Some("sesame"), Some("x"), None));
    assert!(!check_auth("admin", "sesame", Some("admin"), None, Some("x"), None));
}

#[test]
fn hex_decoding() {
    assert_eq!(hex_decode("6869"), Some("hi".to_string()));
    assert_eq!(hex_decode("+a"), Some("\n".to_string()));
    assert_eq!(hex_decode("686"), None);
    assert_eq!(hex_decode("zz"), None);
    assert_eq!(hex_decode("ff"), None);
    assert_eq!(hex_decode(""), Some(String::new()));
}

#[test]
fn params_check_their_own_credentials() {
    let p = IdParam {
        u: Some("admin".to_string()),
        p: Some("sesame".to_string()),
        t: None,
        s: None,
        f: Some("xml".to_string()),
        id: Some("1".to_string()),
    };
    assert!(p.check_auth("admin", "sesame"));
    assert!(p.wants_xml());
    let c = CommonParams { u: Some("admin".to_string()), p: None, t: None, s: None, f: None };
    assert!(!c.check_auth("admin", "sesame"));
    assert!(!c.wants_xml());
    assert!(wants_xml(Some("xml")));
    assert!(!wants_xml(Some("json")));
}

#[test]
fn raw_query_parameters() {
    assert_eq!(multi_param("id=1&x=2&id=3&idx=4", "id"), vec!["1", "3"]);
    assert_eq!(single_param("a=1&id=7&id=8", "id"), Some("7".to_string()));
    assert_eq!(single_param("a=1", "id"), None);
}

#[test]
fn media_types_and_names() {
    assert_eq!(mime_for_path("/m/a.FLAC"), "audio/flac");
    assert_eq!(mime_for_path("/m/a.m4a"), "audio/mp4");
    assert_eq!(mime_for_path("/m/a.opus"), "audio/opus");
    assert_eq!(mime_for_path("/m/a.xyz"), "audio/mpeg");
    assert_eq!(mime_for_path("noext"), "audio/mpeg");
    assert_eq!(safe_filename("/m/dir/song.mp3"), "song.mp3");
    assert_eq!(safe_filename("song.mp3"), "song.mp3");
    assert_eq!(xml_escape("<a href='x'>&\"</a>"), "&lt;a href=&apos;x&apos;&gt;&amp;&quot;&lt;/a&gt;");
}

#[test]
fn now_playing_slot() {
    let mut slot: Option<NowPlayingInfo> = None;
    assert!(get_now_playing(&slot).is_none());
    assert_eq!(now_playing_xml(&slot), "<nowPlaying></nowPlaying>");
    set_now_playing(&mut slot, Some(info()));
    let got = get_now_playing(&slot).unwrap();
    assert_eq!(got.title, "A & B");
    assert_eq!(got.length_ms, 215_999);
    assert_eq!(
        now_playing_xml(&slot),
        "<nowPlaying><entry id=\"t1\" title=\"A &amp; B\" artist=\"Art\" album=\"Alb\" duration=\"215\" username=\"admin\" minutesAgo=\"0\" playerId=\"1\"/></nowPlaying>"
    );
    set_now_playing(&mut slot, None);
    assert!(get_now_playing(&slot).is_none());
}

#[test]
fn answers() {
    assert_eq!(
        ok_xml_body("<x/>"),
        "<?xml version=\"1.0\" encoding=\"UTF-8\"?><subsonic-response xmlns=\"http://subsonic.org/restapi\" status=\"ok\" version=\"1.16.1\"><x/></subsonic-response>"
    );
    assert_eq!(
        error_xml_body(40, "Wrong username or password"),
        "<?xml version=\"1.0\" encoding=\"UTF-8\"?><subsonic-response xmlns=\"http://subsonic.org/restapi\" status=\"failed\" version=\"1.16.1\"><error code=\"40\" message=\"Wrong username or password\"/></subsonic-response>"
    );
}

#[test]
fn byte_ranges() {
    assert_eq!(stream_range("bytes=0-", 100), Some((0, 99)));
    assert_eq!(stream_range("bytes=10-19", 100), Some((10, 19)));
    assert_eq!(stream_range("bytes=10-500", 100), Some((10, 99)));
    assert_eq!(stream_range("bytes=x-5", 100), Some((0, 5)));
    assert_eq!(stream_range("bytes=50-10", 100), None);
    assert_eq!(stream_range("items=0-1", 100), None);
    assert_eq!(stream_range("bytes=0-", 0), Some((0, 0)));
    assert_eq!(content_range_value(10, 10, 100), "bytes 10-19/100");
}

#[test]
fn cover_art() {
    assert!(matches!(art_ref("al-42"), ArtRef::Album(a) if a == "42"));
    assert!(matches!(art_ref("ar-7"), ArtRef::Artist(a) if a == "7"));
    assert!(matches!(art_ref("t9"), ArtRef::Track(t) if t == "t9"));
    assert!(matches!(art_location("https://x/y.jpg", "/h"), ArtLocation::Remote(u) if u == "https://x/y.jpg"));
    assert!(matches!(art_location("/abs/c.png", "/h"), ArtLocation::File(p) if p == "/abs/c.png"));
    assert!(matches!(art_location("c.png", "/h"), ArtLocation::File(p) if p == "/h/.config/rockbox.org/covers/c.png"));
    assert_eq!(art_mime("/h/c.png"), "image/png");
    assert_eq!(art_mime("/h/c"), "application/octet-stream");
    assert_eq!(remote_art_mime(None), "image/jpeg");
    assert_eq!(remote_art_mime(Some("image/webp")), "image/webp");
}

#[test]
fn server_runs_only_with_a_password() {
    assert!(subsonic_config(Some("u"), None, Some(1)).is_none());
    assert!(subsonic_config(None, Some(""), None).is_none());
    let c = subsonic_config(None, Some("pw"), None).unwrap();
    assert_eq!(c.username, "admin");
    assert_eq!(c.password, "pw");
    assert_eq!(c.port, 4533);
    let d = subsonic_config(Some("bob"), Some("x"), Some(8080)).unwrap();
    assert_eq!((d.username.as_str(), d.port), ("bob", 8080));
}
