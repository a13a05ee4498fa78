use rockboxd::plex::{
    attr_value, browse_entries, build_stream_url, extract_part_key, parse_base_url,
    parse_directories, parse_tracks, percent_decode, percent_encode, section_entries,
    section_key, server_from_service,
};

const LISTING: &str = "<MediaContainer><Directory key=\"1\" title=\"Music\" type=\"artist\"/>\
<Directory key='2' title=''/><Track key=\"/library/metadata/7\" title=\"Song &amp; Co\">\
<Media><Part key=\"/library/parts/7/file.flac\"/></Media></Track>\
<Track key=\"/x\" title=\"No part\"></Track></MediaContainer>";

#[test]
fn base_url_and_token() {
    assert_eq!(parse_base_url("http://p:32400?X-Plex-Token=abc&x=1"), ("http://p:32400".to_string(), Some("abc".to_string())));
    assert_eq!(parse_base_url("http://p:32400?X-Plex-Token="), ("http://p:32400".to_string(), None));
    assert_eq!(parse_base_url("http://p:32400"), ("http://p:32400".to_string(), None));
}

#[test]
fn attributes_and_parts() {
    assert_eq!(attr_value("<Directory key=\"1\" title='T'>", "title"), Some("T".to_string()));
    assert_eq!(attr_value("<Directory key=\"1\">", "title"), None);
    assert_eq!(extract_part_key("<Track><Part key=\"/p/1\"/></Track>"), Some("/p/1".to_string()));
    assert_eq!(extract_part_key("<Track></Track>"), None);
}

#[test]
fn listings() {
    assert_eq!(parse_directories(LISTING), vec![("1".to_string(), "Music".to_string())]);
    assert_eq!(
        parse_tracks(LISTING),
        vec![("/library/metadata/7".to_string(), "Song &amp; Co".to_string(), "/library/parts/7/file.flac".to_string())]
    );
    let sections = section_entries(LISTING);
    assert_eq!(sections.len(), 1);
    assert_eq!(sections[0].key, "/library/sections/1/all");
    assert!(sections[0].is_container);
    let all = browse_entries("http://p:32400/", Some("tok"), LISTING);
    assert_eq!(all.len(), 2);
    assert_eq!(all[0].key, "1");
    assert_eq!(all[1].stream_url.as_deref(), Some("http://p:32400/library/parts/7/file.flac?X-Plex-Token=tok"));
    assert!(!all[1].is_container);
}

#[test]
fn urls_and_servers() {
    assert_eq!(build_stream_url("http://p/", None, "a/b"), "http://p/a/b");
    assert_eq!(build_stream_url("http://p", Some(""), "/a"), "http://p/a");
    assert_eq!(section_key("/library/x"), "/library/x");
    assert_eq!(section_key("4"), "/library/sections/4/all");
    let s = server_from_service("Den._plexmediasvr._tcp.local.", "_plexmediasvr._tcp.local.", "10.0.0.2", "32400");
    assert_eq!((s.name.as_str(), s.base_url.as_str()), ("Den", "http://10.0.0.2:32400"));
    let t = server_from_service("_plexmediasvr._tcp.local.", "_plexmediasvr._tcp.local.", "10.0.0.3", "1");
    assert_eq!(t.name, "Plex (10.0.0.3)");
    assert_eq!(percent_decode(&percent_encode("k=/x y")), "k=/x y");
}
