use sound_player::db::{
    choose_lyrics, LyricsFile,
    dashed_id, first_listed, first_occurrences, is_audio_lower,
    find_listed, first_of_each_file, is_audio_extension, parse_title_and_artist, sort_by_title,
    track_for_file, track_id,
};
use sound_player::playlist::Track;

fn track(title: &str, audio: &str) -> Track {
    Track {
        id: title.to_lowercase(),
        title: title.into(),
        artist: "Unknown Artist".into(),
        audio: audio.into(),
        lyrics: String::new(),
    }
}

#[test]
fn parse_filename_conventions() {
    let (t, a) = parse_title_and_artist("Son Tung M-TP - Dung Ve Tre");
    assert_eq!(t, "Dung Ve Tre");
    assert_eq!(a, "Son Tung M-TP");

    let (t, a) = parse_title_and_artist("01. Vu - Dong Kiem Em");
    assert_eq!(t, "Dong Kiem Em");
    assert_eq!(a, "Vu");

    let (t, a) = parse_title_and_artist("hqhuy - mua he nam ay (2)");
    assert_eq!(t, "mua he nam ay (2)");
    assert_eq!(a, "hqhuy");

    let (t, a) = parse_title_and_artist("Dreamers (9)");
    assert_eq!(t, "Dreamers (9)");
    assert_eq!(a, "Unknown Artist");

    let (t, a) = parse_title_and_artist("SimpleSong");
    assert_eq!(t, "SimpleSong");
    assert_eq!(a, "Unknown Artist");
}

#[test]
fn underscores_read_as_spaces() {
    let (t, a) = parse_title_and_artist("My_Band_-_Some_Song");
    assert_eq!(t, "Some Song");
    assert_eq!(a, "My Band");
}

#[test]
fn audio_extensions_are_recognised_in_any_case() {
    for e in ["mp3", "MP3", "wav", "Ogg", "flac", "m4a", "AAC"] {
        assert!(is_audio_extension(e), "{e} should be audio");
    }
    for e in ["json", "lrc", "txt", "", "mp4"] {
        assert!(!is_audio_extension(e), "{e} should not be audio");
    }
}

#[test]
fn a_track_id_is_the_stem_with_separators_as_dashes() {
    assert_eq!(track_id("Artist - Song One"), "artist---song-one");
    assert_eq!(track_id("my_song.v2"), "my-song-v2");
}

#[test]
fn an_unlisted_file_is_named_after_its_stem() {
    let t = track_for_file("Artist - Song One", "/m/Artist - Song One.mp3".into(), None, String::new());
    assert_eq!(t.title, "Song One");
    assert_eq!(t.artist, "Artist");
    assert_eq!(t.id, "artist---song-one");
    assert_eq!(t.audio, "/m/Artist - Song One.mp3");
    assert_eq!(t.lyrics, "");
}

#[test]
fn a_listed_file_keeps_the_names_the_manifest_gives_it() {
    let listed = vec![
        Track {
            id: "x".into(),
            title: "Listed Title".into(),
            artist: "Listed Artist".into(),
            audio: "sub/song.mp3".into(),
            lyrics: "song.json".into(),
        },
        track("Other", "other.mp3"),
    ];
    assert_eq!(find_listed(&listed, "song.mp3"), Some(0));
    assert_eq!(find_listed(&listed, "other.mp3"), Some(1));
    assert_eq!(find_listed(&listed, "missing.mp3"), None);

    let t = track_for_file("song", "/m/song.mp3".into(), Some(&listed[0]), "/m/song.json".into());
    assert_eq!(t.id, "x");
    assert_eq!(t.title, "Listed Title");
    assert_eq!(t.artist, "Listed Artist");
    assert_eq!(t.audio, "/m/song.mp3");
    assert_eq!(t.lyrics, "/m/song.json");
}

#[test]
fn tracks_sort_by_title_and_keep_ties_in_order() {
    let input = vec![
        track("Song Two", "a.mp3"),
        track("Song One", "b.mp3"),
        track("Song Two", "c.mp3"),
        track("Alpha", "d.mp3"),
    ];
    let out = sort_by_title(input);
    let titles: Vec<&str> = out.iter().map(|t| t.title.as_str()).collect();
    assert_eq!(titles, vec!["Alpha", "Song One", "Song Two", "Song Two"]);
    assert_eq!(out[2].audio, "a.mp3");
    assert_eq!(out[3].audio, "c.mp3");
}

#[test]
fn a_file_reached_twice_is_listed_once() {
    let tracks = vec![track("A", "/x/a.mp3"), track("B", "/x/b.mp3"), track("A again", "/y/../x/a.mp3")];
    let keys = vec!["/x/a.mp3".to_string(), "/x/b.mp3".to_string(), "/x/a.mp3".to_string()];
    let out = first_of_each_file(tracks, &keys);
    assert_eq!(out.len(), 2);
    assert_eq!(out[0].title, "A");
    assert_eq!(out[1].title, "B");
}

#[test]
fn ids_and_extensions_from_lower_case_text() {
    assert_eq!(dashed_id("a b_c.d"), "a-b-c-d");
    assert!(is_audio_lower("flac"));
    assert!(!is_audio_lower("FLAC"));
    let listed = vec![track("One", "x/one.mp3"), track("Two", "two.mp3")];
    let names = vec![Some("one.mp3".to_string()), None];
    assert_eq!(first_listed(&listed, &names, "one.mp3"), Some(0));
    assert_eq!(first_listed(&listed, &names, "two.mp3"), Some(1));
    assert_eq!(first_listed(&listed, &names, "x/one.mp3"), Some(0));
    assert_eq!(first_listed(&listed, &names, "three.mp3"), None);
}

#[test]
fn first_occurrences_keep_one_position_per_key() {
    let keys: Vec<String> = ["a", "b", "a", "c", "b"].iter().map(|s| s.to_string()).collect();
    assert_eq!(first_occurrences(&keys), vec![0, 1, 3]);
    assert!(first_occurrences(&Vec::new()).is_empty());
}

#[test]
fn the_lyric_file_comes_from_the_manifest_or_the_stem() {
    assert_eq!(choose_lyrics(Some("song.lrc"), true, true, true), LyricsFile::Listed);
    assert_eq!(choose_lyrics(Some("song.lrc"), false, true, true), LyricsFile::Missing);
    assert_eq!(choose_lyrics(Some(""), true, true, true), LyricsFile::Missing);
    assert_eq!(choose_lyrics(None, false, true, true), LyricsFile::Json);
    assert_eq!(choose_lyrics(None, false, false, true), LyricsFile::Lrc);
    assert_eq!(choose_lyrics(None, true, false, false), LyricsFile::Missing);
}
