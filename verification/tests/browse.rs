use rockboxd::browse::{
    has_audio_suffix_exec, local_entry, navidrome_index_entry, navidrome_item_entry,
    navidrome_request, plex_content_entry, plex_request, plex_section_entry, plex_server_entry,
    tree_source, NavidromeRequest, PlexRequest, TreeSource, DIRECTORY_ATTR,
};
use rockboxd::navidrome::NavidromeEntry;
use rockboxd::plex::{PlexEntry, PlexServer};

#[test]
fn tree_paths_route_by_scheme() {
    assert!(matches!(tree_source(Some("plex://plex://x")), TreeSource::Plex(r) if r == "x"));
    assert!(matches!(tree_source(Some("upnp://")), TreeSource::Upnp(r) if r.is_empty()));
    assert!(matches!(tree_source(Some("jellyfin://a/b")), TreeSource::Jellyfin(r) if r == "a/b"));
    assert!(matches!(tree_source(Some("navidrome://b")), TreeSource::Navidrome(r) if r == "b"));
    assert!(matches!(tree_source(Some("/home/me/Music")), TreeSource::Local(Some(p)) if p == "/home/me/Music"));
    assert!(matches!(tree_source(None), TreeSource::Local(None)));
}

#[test]
fn plex_paths() {
    assert!(matches!(plex_request(""), PlexRequest::Discover(None)));
    assert!(matches!(plex_request("?X-Plex-Token=abc&x=1"), PlexRequest::Discover(Some(t)) if t == "abc"));
    assert!(matches!(plex_request("?X-Plex-Token="), PlexRequest::Discover(None)));
    match plex_request("http%3a%2f%2fp%3a32400%3fX-Plex-Token%3dtok") {
        PlexRequest::Sections { base_encoded, base_url, token } => {
            assert_eq!(base_encoded, "http%3a%2f%2fp%3a32400%3fX-Plex-Token%3dtok");
            assert_eq!(base_url, "http://p:32400");
            assert_eq!(token.as_deref(), Some("tok"));
        }
        _ => panic!("sections"),
    }
    match plex_request("http%3a%2f%2fp/%2flibrary%2fsections%2f1%2fall") {
        PlexRequest::Contents { base_url, token, api_path, .. } => {
            assert_eq!(base_url, "http://p");
            assert!(token.is_none());
            assert_eq!(api_path, "/library/sections/1/all");
        }
        _ => panic!("contents"),
    }
}

#[test]
fn plex_entries() {
    let s = PlexServer { name: "Den".to_string(), base_url: "http://p:1".to_string() };
    let e = plex_server_entry(&s, Some("tok"));
    assert_eq!(e.name, "plex://http%3a%2f%2fp%3a1%3fX-Plex-Token%3dtok");
    assert_eq!((e.attr, e.display_name.as_deref()), (DIRECTORY_ATTR, Some("Den")));
    let sec = PlexEntry { key: "/library/sections/1/all".to_string(), title: "Music".to_string(), is_container: true, stream_url: None };
    assert_eq!(plex_section_entry("B", &sec).name, "plex://B/%2flibrary%2fsections%2f1%2fall");
    let track = PlexEntry { key: "/k".to_string(), title: "T".to_string(), is_container: false, stream_url: Some("http://p/s.flac".to_string()) };
    let t = plex_content_entry("B", &track);
    assert_eq!((t.name.as_str(), t.attr), ("http://p/s.flac", 0));
    let bare = PlexEntry { stream_url: None, ..track };
    assert_eq!(plex_content_entry("B", &bare).name, "plex://B/%2fk");
}

#[test]
fn navidrome_paths_and_entries() {
    assert!(matches!(navidrome_request(""), NavidromeRequest::Nothing));
    assert!(matches!(navidrome_request("?x"), NavidromeRequest::Nothing));
    match navidrome_request("http%3a%2f%2fnd%3fnd_user%3du%26nd_token%3dt/dir%201") {
        NavidromeRequest::Directory { base_url, user, token, salt, dir_id, .. } => {
            assert_eq!(base_url, "http://nd");
            assert_eq!((user.as_str(), token.as_str(), salt.as_str()), ("u", "t", ""));
            assert_eq!(dir_id, "dir 1");
        }
        _ => panic!("directory"),
    }
    assert!(matches!(navidrome_request("http%3a%2f%2fnd"), NavidromeRequest::Indexes { .. }));
    let a = NavidromeEntry { id: "ar 1".to_string(), name: "A".to_string(), is_container: true, stream_url: None };
    assert_eq!(navidrome_index_entry("B", &a).name, "navidrome://B/ar%201");
    let s = NavidromeEntry { id: "s".to_string(), name: "S".to_string(), is_container: false, stream_url: Some("http://nd/st".to_string()) };
    let e = navidrome_item_entry("B", &s);
    assert_eq!((e.name.as_str(), e.attr), ("http://nd/st", 0));
}

#[test]
fn local_directory_entries() {
    assert!(has_audio_suffix_exec("/m/a.flac"));
    assert!(!has_audio_suffix_exec("/m/a.FLAC"));
    assert!(local_entry("/m/cover.jpg", "cover.jpg", true, false, 5, true).is_none());
    assert!(local_entry("/m/.hidden.mp3", ".hidden.mp3", true, false, 5, false).is_none());
    let h = local_entry("/m/.hidden.mp3", ".hidden.mp3", true, false, 5, true).unwrap();
    assert_eq!(h.name, "/m/.hidden.mp3");
    let d = local_entry("/m/Album", "Album", false, true, 4_294_967_297, false).unwrap();
    assert_eq!((d.name.as_str(), d.attr, d.time_write), ("/m/Album", DIRECTORY_ATTR, 1));
    let f = local_entry("/m/a.mp3", "a.mp3", true, false, 7, false).unwrap();
    assert_eq!((f.attr, f.time_write), (0, 7));
}

#[test]
fn navidrome_item_paths_lead_back_to_the_item() {
    let a = NavidromeEntry { id: "al/bum 7é".to_string(), name: "A".to_string(), is_container: true, stream_url: None };
    let e = navidrome_index_entry("http%3a%2f%2fnd", &a);
    match tree_source(Some(&e.name)) {
        TreeSource::Navidrome(rest) => match navidrome_request(&rest) {
            NavidromeRequest::Directory { base_url, dir_id, .. } => {
                assert_eq!(base_url, "http://nd");
                assert_eq!(dir_id, "al/bum 7é");
            }
            _ => panic!("directory"),
        },
        _ => panic!("navidrome"),
    }
}
