use sound_player::playlist::{default_track, Playlist, Track};

fn track(n: u32, artist: &str) -> Track {
    Track {
        id: n.to_string(),
        title: format!("Track {n}"),
        artist: artist.into(),
        audio: format!("{n}.mp3"),
        lyrics: format!("{n}.json"),
    }
}

#[test]
fn playlist_navigation_cycles() {
    let p = Playlist {
        tracks: vec![
            Track {
                id: "1".into(),
                title: "Track 1".into(),
                artist: "Artist 1".into(),
                audio: "1.mp3".into(),
                lyrics: "1.json".into(),
            },
            Track {
                id: "2".into(),
                title: "Track 2".into(),
                artist: "Artist 2".into(),
                audio: "2.mp3".into(),
                lyrics: "2.json".into(),
            },
        ],
    };

    assert_eq!(p.next_index(0), 1);
    assert_eq!(p.next_index(1), 0);
    assert_eq!(p.prev_index(0), 1);
    assert_eq!(p.prev_index(1), 0);
    assert_eq!(p.get(0).unwrap().display_name(), "Track 1 - Artist 1");
}

#[test]
fn an_unknown_artist_is_left_out_of_the_name() {
    assert_eq!(track(3, "Unknown Artist").display_name(), "Track 3");
    assert_eq!(track(4, "").display_name(), "Track 4");
    assert!(!track(4, "").has_artist());
    assert!(track(5, "Vu").has_artist());
}

#[test]
fn an_empty_playlist_stays_put() {
    let p = Playlist::default();
    assert!(p.is_empty());
    assert_eq!(p.len(), 0);
    assert_eq!(p.next_index(7), 0);
    assert_eq!(p.prev_index(7), 0);
    assert!(p.get(0).is_none());
    assert_eq!(p.wrapped(3), None);
}

#[test]
fn stepping_forward_then_back_returns_to_the_same_track() {
    let p = Playlist { tracks: (0..5).map(|n| track(n, "A")).collect() };
    for i in 0..5 {
        assert_eq!(p.prev_index(p.next_index(i)), i);
        assert_eq!(p.next_index(p.prev_index(i)), i);
    }
    // Five steps forward come back round.
    let mut i = 2;
    for _ in 0..5 {
        i = p.next_index(i);
    }
    assert_eq!(i, 2);
    assert_eq!(p.wrapped(7), Some(2));
}

#[test]
fn the_fallback_track_is_the_configured_song() {
    let t = default_track();
    assert_eq!(t.id, "default");
    assert_eq!(t.title, sound_player::config::SONG_NAME);
    assert_eq!(t.artist, "Unknown Artist");
    assert_eq!(t.audio, sound_player::config::SONG_FILE);
    assert_eq!(t.lyrics, sound_player::config::LYRIC_JSON);
}
