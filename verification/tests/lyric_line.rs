use sound_player::lyrics::{Sentence, Word};
use sound_player::ui::lyric_line::{
    active_pieces, fill_count, filled_graphemes, join_clusters, light_clusters, line_look, singing_word, take_graphemes, LineLook, Piece, Status,
    Tone,
};

fn line(words: &[(&str, i64, i64)]) -> Sentence {
    Sentence {
        words: words
            .iter()
            .map(|&(data, start_time, end_time)| Word { data: data.into(), start_time, end_time })
            .collect(),
        is_gap: false,
    }
}

fn joined(pieces: &[Piece]) -> String {
    pieces.iter().map(|p| p.text.as_str()).collect()
}

#[test]
fn the_fill_counts_visible_characters_not_code_units() {
    // "ế" decomposed: e + circumflex + acute. Three code points, one
    // grapheme.
    let decomposed = "be\u{0302}\u{0301}";
    assert_eq!(decomposed.chars().count(), 4);

    // Halfway through the word should light exactly one of the two.
    assert_eq!(filled_graphemes(decomposed, 500, 0, 1000), 1);
    assert_eq!(filled_graphemes(decomposed, 1000, 0, 1000), 2);
}

#[test]
fn the_fill_spans_the_whole_word_by_its_end() {
    assert_eq!(filled_graphemes("hello", 0, 0, 1000), 0);
    assert_eq!(filled_graphemes("hello", 1000, 0, 1000), 5);
    assert_eq!(filled_graphemes("hello", 5000, 0, 1000), 5);
}

#[test]
fn a_zero_length_word_is_treated_as_complete() {
    assert_eq!(filled_graphemes("xin", 0, 500, 500), 3);
}

#[test]
fn the_active_line_is_exactly_as_wide_as_its_words() {
    // A trailing space after the last word made the active line one column
    // wider than the same text on any neighbouring line.
    let s = line(&[("Đừng", 0, 500), ("về", 500, 900), ("trễ", 900, 1400)]);

    for now in [0, 700, 1_200, 5_000] {
        let text = joined(&active_pieces(&s, now));
        assert_eq!(text, s.text(), "at {now}ms");
        assert!(!text.ends_with(' '), "trailing space at {now}ms");
    }
}

#[test]
fn slicing_by_grapheme_never_splits_a_character() {
    let s = "be\u{0302}\u{0301}o";
    assert_eq!(take_graphemes(s, 0, 1), "b");
    assert_eq!(take_graphemes(s, 1, 2), "e\u{0302}\u{0301}");
    assert_eq!(take_graphemes(s, 2, 3), "o");
    assert_eq!(take_graphemes(s, 0, 99), s);
    // A backwards range yields nothing rather than panicking.
    assert_eq!(take_graphemes(s, 5, 2), "");
}

#[test]
fn singing_word_transitions_smoothly_through_states() {
    let word = "hát";
    // Before anticipation: the plain singing colour.
    let before = singing_word(word, 0, 1000, 2000);
    assert_eq!(joined(&before), word);
    assert_eq!(before[0].tone, Tone::Ahead);

    // During anticipation: warm up.
    let warm = singing_word(word, 900, 1000, 2000);
    assert_eq!(joined(&warm), word);
    assert_eq!(warm[0].tone, Tone::Warming { until: 100 });

    // Mid singing: the active character is lit.
    let mid = singing_word(word, 1500, 1000, 2000);
    assert_eq!(joined(&mid), word);
    assert!(mid.iter().any(|p| matches!(p.tone, Tone::Lit { .. })));

    // Just finished: the afterglow is on.
    let just_finished = singing_word(word, 2050, 1000, 2000);
    assert_eq!(joined(&just_finished), word);
    assert!(just_finished.iter().any(|p| matches!(p.tone, Tone::Glowing { .. })));

    // Long after: settled.
    let long_past = singing_word(word, 5000, 1000, 2000);
    assert_eq!(joined(&long_past), word);
    assert_eq!(long_past[0].tone, Tone::Sung);
}

#[test]
fn each_cluster_gets_an_even_share_of_the_word() {
    // Three clusters over 300ms: 0-100, 100-200, 200-300.
    let pieces = singing_word("abc", 150, 0, 300);
    let tones: Vec<(String, Tone)> = pieces.iter().map(|p| (p.text.clone(), p.tone)).collect();
    assert_eq!(
        tones,
        vec![
            ("a".to_string(), Tone::Glowing { since: 50 }),
            ("b".to_string(), Tone::Lit { elapsed: 50, length: 100 }),
            ("c".to_string(), Tone::Warming { until: 50 }),
        ]
    );
}

#[test]
fn neighbours_lit_alike_merge_into_one_piece() {
    // Long after the end every cluster is sung, so one piece remains.
    let pieces = singing_word("xin chào", 10_000, 0, 800);
    assert_eq!(pieces.len(), 1);
    assert_eq!(pieces[0].text, "xin chào");
    // A word with no length is sung at once.
    let instant = singing_word("xin", 0, 500, 500);
    assert_eq!(instant.len(), 1);
    assert_eq!(instant[0].tone, Tone::Sung);
    // A word with no text has no pieces.
    assert!(singing_word("", 0, 0, 100).is_empty());
}

#[test]
fn the_space_between_words_follows_the_voice() {
    let s = line(&[("một", 0, 500), ("hai", 1_000, 1_500)]);
    let space = |now: i64| active_pieces(&s, now).into_iter().find(|p| p.text == " ").unwrap().tone;
    assert_eq!(space(100), Tone::Ahead);
    assert_eq!(space(600), Tone::Glowing { since: 100 });
    assert_eq!(space(900), Tone::Sung);
    assert_eq!(space(1_000), Tone::Sung);
}

#[test]
fn the_marker_is_only_on_the_line_being_sung() {
    assert_eq!(line_look(false, Status::Active, false, 1_500), LineLook::Sung);
    assert_eq!(line_look(false, Status::Past, false, 1_500), LineLook::Plain);
    assert_eq!(line_look(false, Status::Future, false, 1_500), LineLook::Plain);
}

#[test]
fn an_instrumental_break_gets_no_marker() {
    let look = line_look(true, Status::Active, true, 1_500);
    assert_eq!(look, LineLook::Break { alternate: true, active: true });
    assert_ne!(look, LineLook::Sung);
}

#[test]
fn every_other_row_steps_aside_during_a_break() {
    assert_eq!(line_look(false, Status::Future, true, 0), LineLook::Blank);
    assert_eq!(line_look(false, Status::Past, true, 0), LineLook::Blank);
    // The break's note pattern swaps every 800ms.
    assert_eq!(line_look(true, Status::Future, false, 0), LineLook::Break { alternate: false, active: false });
    assert_eq!(line_look(true, Status::Future, false, 800), LineLook::Break { alternate: true, active: false });
}

#[test]
fn the_fill_count_rounds_the_share_up() {
    assert_eq!(fill_count(3, 1, 0, 300), 1);
    assert_eq!(fill_count(3, 100, 0, 300), 1);
    assert_eq!(fill_count(3, 101, 0, 300), 2);
    assert_eq!(fill_count(3, -5, 0, 300), 0);
    assert_eq!(fill_count(3, 0, 0, 300), 0);
    assert_eq!(fill_count(3, 300, 0, 300), 3);
    assert_eq!(fill_count(3, 7, 9, 2), 3);
}

#[test]
fn joining_a_range_of_clusters_clips_it() {
    let parts: Vec<String> = ["b", "e\u{0302}\u{0301}", "o"].iter().map(|s| s.to_string()).collect();
    assert_eq!(join_clusters(&parts, 1, 3), "e\u{0302}\u{0301}o");
    assert_eq!(join_clusters(&parts, 2, 99), "o");
    assert_eq!(join_clusters(&parts, 9, 99), "");
    assert_eq!(join_clusters(&parts, 2, 1), "");
}

#[test]
fn pieces_come_from_the_clusters_they_are_given() {
    let clusters: Vec<String> = vec!["x".into(), "y".into()];
    let pieces = light_clusters("xy", &clusters, 10_000, 0, 100);
    assert_eq!(pieces.len(), 1);
    assert_eq!(pieces[0].text, "xy");
    assert_eq!(pieces[0].tone, Tone::Sung);
    assert!(light_clusters("", &Vec::new(), 0, 0, 100).is_empty());
}

#[test]
fn a_word_settles_the_moment_its_afterglow_ends() {
    // Two clusters, 0-150 and 150-300; the afterglow lasts 240ms.
    let tones = |now: i64| -> Vec<(String, Tone)> {
        singing_word("ab", now, 0, 300).iter().map(|p| (p.text.clone(), p.tone)).collect()
    };
    assert_eq!(tones(539), vec![("a".to_string(), Tone::Sung), ("b".to_string(), Tone::Glowing { since: 239 })]);
    assert_eq!(tones(540), vec![("ab".to_string(), Tone::Sung)]);
    // The anticipation window is 150ms: at exactly 150ms ahead nothing warms yet.
    assert_eq!(tones(-150), vec![("ab".to_string(), Tone::Ahead)]);
    assert_eq!(tones(-149), vec![("a".to_string(), Tone::Warming { until: 149 }), ("b".to_string(), Tone::Ahead)]);
}

#[test]
fn the_space_settles_when_its_afterglow_ends() {
    let s = line(&[("một", 0, 500), ("hai", 1_000, 1_500)]);
    let space = |now: i64| active_pieces(&s, now).into_iter().find(|p| p.text == " ").unwrap().tone;
    assert_eq!(space(739), Tone::Glowing { since: 239 });
    assert_eq!(space(740), Tone::Sung);
}
