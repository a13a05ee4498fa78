use rockboxd::playlists::{resolve_album_ids, resolve_artist_ids, unique_in_order};

fn s(v: &[&str]) -> Vec<String> {
    v.iter().map(|x| x.to_string()).collect()
}

#[test]
fn first_occurrences_in_order() {
    assert_eq!(unique_in_order(&s(&["b", "a", "b", "c", "a"])), vec!["b", "a", "c"]);
    assert_eq!(resolve_album_ids(&s(&[])), Vec::<String>::new());
    assert_eq!(resolve_artist_ids(&s(&["x", "x"])), vec!["x"]);
}

fn lib_track(id: &str, title: &str) -> rockboxd::library::LibraryTrack {
    rockboxd::library::LibraryTrack {
        id: id.to_string(),
        path: format!("/m/{}.mp3", id),
        title: title.to_string(),
        album: "Al".to_string(),
        artist: "Ar".to_string(),
        album_id: "al".to_string(),
        artist_id: "ar".to_string(),
        genre: None,
        track_number: Some(1),
        disc_number: None,
        year: Some(1999),
        filesize: 10,
        length: 3,
        bitrate: 320,
        created_at: 42,
    }
}

fn stats(id: &str, plays: i64) -> rockboxd::playlists::TrackStats {
    rockboxd::playlists::TrackStats {
        track_id: id.to_string(),
        play_count: plays,
        skip_count: 1,
        last_played: Some(5),
        last_skipped: None,
    }
}

#[test]
fn candidates_join_stats_and_likes() {
    let tracks = vec![lib_track("a", "A"), lib_track("b", "B")];
    let st = vec![stats("b", 2), stats("x", 9), stats("b", 7)];
    let cands = rockboxd::playlists::build_candidates(&tracks, &st, &s(&["b"]));
    assert_eq!(cands.len(), 2);
    assert_eq!((cands[0].play_count, cands[0].last_played, cands[0].is_liked), (0, None, false));
    assert_eq!((cands[1].play_count, cands[1].skip_count, cands[1].is_liked), (7, 1, true));
    assert_eq!((cands[1].duration_ms, cands[1].year, cands[1].date_added_ts), (3000, Some(1999), 42));
}

#[test]
fn kept_candidates_come_back_as_tracks() {
    let library = vec![lib_track("a", "A"), lib_track("b", "B"), lib_track("a", "A2")];
    let kept = rockboxd::playlists::build_candidates(
        &[lib_track("b", "?"), lib_track("zz", "?"), lib_track("a", "?")],
        &[],
        &[],
    );
    let tracks = rockboxd::playlists::resolve_tracks(&library, &kept);
    let titles: Vec<&str> = tracks.iter().map(|t| t.title.as_str()).collect();
    assert_eq!(titles, vec!["B", "A2"]);
}
