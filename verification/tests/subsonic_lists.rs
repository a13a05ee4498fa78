use rockboxd::library::LibraryAlbum;
use rockboxd::subsonic_lists::{album_list2_page, search_page};

fn album(id: &str, title: &str, artist: &str, year: u32) -> LibraryAlbum {
    LibraryAlbum {
        id: id.to_string(),
        title: title.to_string(),
        artist: artist.to_string(),
        artist_id: format!("ar-{}", artist),
        year,
    }
}

fn albums() -> Vec<LibraryAlbum> {
    vec![
        album("a", "Zed", "Bob", 1999),
        album("b", "Alpha", "Carl", 2005),
        album("c", "Mid", "Anna", 1999),
        album("d", "Alpha", "Anna", 1980),
    ]
}

#[test]
fn album_lists_by_name_and_artist_are_stable() {
    let al = albums();
    let none: Vec<String> = vec![];
    assert_eq!(album_list2_page(&al, None, None, None, None, None, &none), vec![1, 3, 2, 0]);
    assert_eq!(album_list2_page(&al, Some("alphabeticalByArtist"), None, None, None, None, &none), vec![2, 3, 0, 1]);
    assert_eq!(album_list2_page(&al, Some("newest"), None, None, None, None, &none), vec![3, 2, 1, 0]);
    assert_eq!(album_list2_page(&al, Some("random"), None, None, None, None, &none), vec![0, 1, 2, 3]);
}

#[test]
fn album_lists_by_year_filter_and_order() {
    let al = albums();
    let none: Vec<String> = vec![];
    assert_eq!(album_list2_page(&al, Some("byYear"), None, None, Some(1990), Some(2010), &none), vec![0, 2, 1]);
    assert_eq!(album_list2_page(&al, Some("byYear"), None, None, Some(2010), Some(1990), &none), vec![1, 0, 2]);
    assert_eq!(album_list2_page(&al, Some("byYear"), None, None, None, None, &none), vec![3, 0, 2, 1]);
}

#[test]
fn album_lists_starred_and_paged() {
    let al = albums();
    let fav = vec!["c".to_string(), "a".to_string()];
    assert_eq!(album_list2_page(&al, Some("starred"), None, None, None, None, &fav), vec![0, 2]);
    let none: Vec<String> = vec![];
    assert_eq!(album_list2_page(&al, None, Some(2), Some(1), None, None, &none), vec![3, 2]);
    assert_eq!(album_list2_page(&al, None, Some(5), Some(9), None, None, &none), Vec::<usize>::new());
}

#[test]
fn search_matches_any_field_ignoring_case() {
    let entries = vec![
        vec!["Hello World".to_string(), "Band".to_string()],
        vec!["Other".to_string(), "WORLDS".to_string()],
        vec!["Nothing".to_string()],
    ];
    assert_eq!(search_page(&entries, Some("world"), None, None), vec![0, 1]);
    assert_eq!(search_page(&entries, Some("WoRlD"), Some(1), Some(1)), vec![1]);
    assert_eq!(search_page(&entries, None, None, None), vec![0, 1, 2]);
    assert_eq!(search_page(&entries, Some("zzz"), None, None), Vec::<usize>::new());
}
