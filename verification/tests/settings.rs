use rockboxd::settings::{default_music_dir, expand_home, library_dir, music_dir_of, settings_path};

#[test]
fn home_is_expanded_everywhere() {
    assert_eq!(expand_home("$HOME/Music", "/home/ann"), "/home/ann/Music");
    assert_eq!(expand_home("/a/$HOME/$HOME", "/h"), "/a//h//h");
    assert_eq!(expand_home("/srv/music", "/h"), "/srv/music");
    assert_eq!(expand_home("$HOM", "/h"), "$HOM");
}

#[test]
fn library_falls_back_to_default() {
    assert_eq!(default_music_dir("/home/ann"), "/home/ann/Music");
    assert_eq!(library_dir(Some("/srv/music"), true, "/home/ann"), "/srv/music");
    assert_eq!(library_dir(Some("/srv/music"), false, "/home/ann"), "/home/ann/Music");
    assert_eq!(library_dir(None, true, "/home/ann"), "/home/ann/Music");
}

#[test]
fn settings_file_and_music_dir() {
    assert_eq!(settings_path("/home/ann"), "/home/ann/.config/rockbox.org/settings.toml");
    assert_eq!(music_dir_of(Some("/srv"), Some("/lib"), "/h"), "/srv");
    assert_eq!(music_dir_of(None, Some("/lib"), "/h"), "/lib");
    assert_eq!(music_dir_of(None, None, "/h"), "/h/Music");
}
