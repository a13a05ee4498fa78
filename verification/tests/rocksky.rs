use rockboxd::rocksky::{
    album_artist_or_artist, cover_url, like_hash, release_date, remote_command, RemoteCommand,
};

#[test]
fn websocket_commands() {
    assert!(matches!(remote_command(Some("command"), Some("play"), None), Some(RemoteCommand::Resume)));
    assert!(matches!(remote_command(Some("command"), Some("seek"), Some(1500)), Some(RemoteCommand::Seek(1500))));
    assert!(matches!(remote_command(Some("command"), Some("seek"), None), Some(RemoteCommand::Seek(0))));
    assert!(matches!(remote_command(Some("command"), Some("dance"), None), Some(RemoteCommand::Unknown(a)) if a == "dance"));
    assert!(remote_command(Some("track"), Some("play"), None).is_none());
    assert!(remote_command(Some("command"), None, None).is_none());
}

#[test]
fn track_record_values() {
    assert_eq!(release_date("2001-05-01").as_deref(), Some("2001-05-01"));
    assert_eq!(release_date("2001"), None);
    assert_eq!(cover_url(Some("x.jpg")).as_deref(), Some("https://cdn.rocksky.app/covers/x.jpg"));
    assert_eq!(cover_url(None), None);
    assert_eq!(album_artist_or_artist("", "A"), "A");
    assert_eq!(album_artist_or_artist("B", "A"), "B");
    assert_eq!(like_hash("T", "A", "L"), "ed69947e968afda763ea3fcefe42c53ea54a52fb77491b12dd7bd5772a9489ee");
    assert_eq!(like_hash("", "", ""), "d9c8f2d8b20805e16e0b87f0d4bc3dbcb25f8056b5dfeae775a0e37a680953f6");
    // Lower-casing is Unicode-wide, not ASCII only.
    assert_eq!(like_hash("É", "A", "L"), "65b7f1f04187621547074e19a282e111ab2c61a1425e8ba1f8eb4e6b285f698d");
}
