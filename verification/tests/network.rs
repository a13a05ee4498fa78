use rockboxd::network::{cache_dir, cache_file_path, get_file_extension, is_remote};

#[test]
fn extensions_of_media_types() {
    assert_eq!(get_file_extension("audio/mpeg").ok().as_deref(), Some("mp3"));
    assert_eq!(get_file_extension("audio/x-wav").ok().as_deref(), Some("wav"));
    assert_eq!(get_file_extension("audio/vnd.dolby.dd-raw").ok().as_deref(), Some("ac3"));
    let e = get_file_extension("text/html").err().unwrap();
    assert_eq!(e.message(), "Unsupported mime type: text/html");
}

#[test]
fn cache_files() {
    assert!(is_remote("https://x/a.mp3"));
    assert!(!is_remote("/m/a.mp3"));
    assert_eq!(cache_dir("/home/me"), "/home/me/.cache/rockbox");
    assert_eq!(
        cache_file_path("/c", "", "audio/flac").ok().as_deref(),
        Some("/c/d41d8cd98f00b204e9800998ecf8427e.flac")
    );
    assert!(cache_file_path("/c", "u", "x/y").is_err());
}
