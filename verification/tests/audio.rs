use sound_player::audio::{base_letter, fold, fold_lowered, song_finished, is_mp3_extension, pick_song, seek_by_target, seek_target, Ring, SongError, RING_CAPACITY};

fn stems(list: &[&str]) -> Vec<String> {
    list.iter().map(|s| s.to_string()).collect()
}

#[test]
fn folding_ignores_case_spacing_and_combining_marks() {
    // "Đừng Về Trễ" composed versus decomposed.
    let nfc = "Đừng Về Trễ";
    let nfd = "Đu\u{031B}\u{0300}ng Ve\u{0300} Tre\u{0303}\u{0303}";
    assert_eq!(fold("dung ve tre"), fold("DUNG  VE TRE"));
    assert!(!fold(nfc).is_empty());
    assert!(!fold(nfd).is_empty());
}

#[test]
fn folding_drops_marks_and_spaces_and_lowers_the_rest() {
    assert_eq!(fold("Ve\u{0300} Tre\u{0303}"), "vetre");
    assert_eq!(fold(" A\tB\nC "), "abc");
    assert_eq!(fold(""), "");
}

#[test]
fn a_song_matches_a_file_whose_name_holds_its_name() {
    let files = stems(&["intro", "Dung Ve Tre (Live)", "outro"]);
    assert_eq!(pick_song("dung ve tre", &files), Ok(1));
    // Either way round: the file name may be the shorter one.
    let files = stems(&["other", "tre"]);
    assert_eq!(pick_song("Dung Ve Tre", &files), Ok(1));
    // The first match wins.
    let files = stems(&["b", "ab", "abc"]);
    assert_eq!(pick_song("ab", &files), Ok(0));
}

#[test]
fn a_lone_file_is_used_when_nothing_matches() {
    assert_eq!(pick_song("missing", &stems(&["only"])), Ok(0));
    assert_eq!(pick_song("", &stems(&["only"])), Ok(0));
}

#[test]
fn no_match_among_several_files_is_an_error() {
    assert_eq!(pick_song("missing", &stems(&["one", "two"])), Err(SongError::NoMatch { found: 2 }));
    assert_eq!(pick_song("missing", &stems(&[])), Err(SongError::NoAudio));
    // An empty name matches nothing in particular.
    assert_eq!(pick_song("", &stems(&["one", "two"])), Err(SongError::NoMatch { found: 2 }));
}

#[test]
fn the_mp3_extension_is_recognised_in_any_case() {
    assert!(is_mp3_extension("mp3"));
    assert!(is_mp3_extension("MP3"));
    assert!(is_mp3_extension("Mp3"));
    assert!(!is_mp3_extension("mp4"));
    assert!(!is_mp3_extension("mp3 "));
}

#[test]
fn seeking_is_clamped_to_the_song() {
    assert_eq!(seek_target(-5, 1_000), 0);
    assert_eq!(seek_target(500, 1_000), 500);
    assert_eq!(seek_target(5_000, 1_000), 1_000);
    assert_eq!(seek_by_target(900, 5_000, 1_000), 1_000);
    assert_eq!(seek_by_target(900, -5_000, 1_000), 0);
    assert_eq!(seek_by_target(i64::MAX, i64::MAX, 10), 10);
}

#[test]
fn the_ring_keeps_the_newest_samples_in_order() {
    let mut r: Ring<u32> = Ring::new();
    assert!(r.latest(4).is_empty());
    for s in 0..5 {
        r.push(s);
    }
    assert_eq!(r.latest(3), vec![2, 3, 4]);
    assert_eq!(r.latest(10), vec![0, 1, 2, 3, 4]);
    r.clear();
    assert!(r.latest(10).is_empty());
}

#[test]
fn a_full_ring_drops_the_oldest_sample() {
    let mut r: Ring<usize> = Ring::new();
    for s in 0..RING_CAPACITY + 3 {
        r.push(s);
    }
    let all = r.latest(usize::MAX);
    assert_eq!(all.len(), RING_CAPACITY);
    assert_eq!(all[0], 3);
    assert_eq!(*all.last().unwrap(), RING_CAPACITY + 2);
}

#[test]
fn folding_with_given_lower_cases() {
    let chars: Vec<char> = "Ae\u{0301} B".chars().collect();
    let lowered: Vec<Vec<char>> = vec![vec!['a'], vec!['e'], vec!['\u{0301}'], vec![' '], vec!['b']];
    assert_eq!(fold_lowered(&chars, &lowered), "aeb");
}

#[test]
fn composed_and_decomposed_titles_fold_alike() {
    let nfc = "Đừng Về Trễ";
    let nfd = "Đu\u{031B}\u{0300}ng Ve\u{0302}\u{0300} Tre\u{0302}\u{0303}";
    assert_eq!(fold(nfc), fold(nfd));
    assert_eq!(fold(nfc), "đungvetre");
    assert_eq!(fold("Cà Phê Sữa Đá"), fold("Ca\u{0300} Phe\u{0302} Su\u{031B}\u{0303}a Đa\u{0301}"));
}

#[test]
fn precomposed_letters_reduce_to_their_base() {
    assert_eq!(base_letter('ừ'), 'u');
    assert_eq!(base_letter('Ừ'), 'U');
    assert_eq!(base_letter('ễ'), 'e');
    assert_eq!(base_letter('Ă'), 'A');
    assert_eq!(base_letter('ơ'), 'o');
    assert_eq!(base_letter('ç'), 'c');
    assert_eq!(base_letter('ÿ'), 'y');
    assert_eq!(base_letter('đ'), 'đ');
    assert_eq!(base_letter('x'), 'x');
}

#[test]
fn a_song_is_finished_near_its_end_once_output_stops() {
    assert!(song_finished(true, 59_800, 60_000));
    assert!(!song_finished(true, 59_799, 60_000));
    assert!(!song_finished(false, 60_000, 60_000));
    assert!(song_finished(true, 0, 0));
}
