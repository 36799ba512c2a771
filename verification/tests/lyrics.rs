use sound_player::lyrics::{
    active_line, checked_parse_time, inject_gaps, next_line_start, parse_time, prepare,
    previous_line_start, Sentence, Word,
};

fn word(start: i64, end: i64) -> Word {
    Word { start_time: start, end_time: end, data: "x".into() }
}

fn line(start: i64, end: i64) -> Sentence {
    Sentence { words: vec![word(start, end)], is_gap: false }
}

#[test]
fn parses_both_time_formats() {
    assert_eq!(parse_time("0:01:02"), 62_000);
    assert_eq!(parse_time("01:02"), 62_000);
    assert_eq!(parse_time("nonsense"), 0);
}

#[test]
fn injects_a_leading_gap_only_when_the_intro_is_long() {
    let long = inject_gaps(vec![line(5_000, 6_000)]);
    assert!(long[0].is_gap);
    assert_eq!(long.len(), 2);

    let short = inject_gaps(vec![line(1_000, 2_000)]);
    assert!(!short[0].is_gap);
    assert_eq!(short.len(), 1);
}

#[test]
fn injects_a_gap_between_distant_lines() {
    let out = inject_gaps(vec![line(0, 1_000), line(9_000, 10_000)]);
    assert_eq!(out.len(), 3);
    assert!(out[1].is_gap);
    assert_eq!(out[1].start(), 1_500);
    assert_eq!(out[1].end(), 8_500);
}

#[test]
fn leaves_adjacent_lines_alone() {
    let out = inject_gaps(vec![line(0, 1_000), line(1_500, 2_000)]);
    assert_eq!(out.len(), 2);
}

#[test]
fn skipping_back_restarts_the_line_before_it_leaves_it() {
    let s = vec![line(0, 900), line(1_000, 1_900), line(5_000, 5_900)];

    // Just after a line starts, step back to the one before.
    assert_eq!(previous_line_start(&s, 1_100), 0);
    // Well into it, restart it instead.
    assert_eq!(previous_line_start(&s, 3_000), 1_000);
    // On the very first line there is nowhere before it.
    assert_eq!(previous_line_start(&s, 100), 0);
    // Before any line has started.
    assert_eq!(previous_line_start(&s, -50), 0);
}

#[test]
fn skipping_forward_lands_on_the_next_line() {
    let s = vec![line(0, 900), line(1_000, 1_900), line(5_000, 5_900)];

    assert_eq!(next_line_start(&s, 0), 1_000);
    assert_eq!(next_line_start(&s, 1_500), 5_000);
    // Nowhere further to go.
    assert_eq!(next_line_start(&s, 9_000), 5_000);
}

#[test]
fn skipping_an_empty_lyric_set_is_not_a_panic() {
    assert_eq!(previous_line_start(&[], 1_000), 0);
    assert_eq!(next_line_start(&[], 1_000), 1_000);
}

#[test]
fn the_active_line_is_the_last_one_started() {
    let s = vec![line(0, 1_000), line(5_000, 6_000)];
    assert_eq!(active_line(&s, 100), 0);
    assert_eq!(active_line(&s, 4_000), 0);
    assert_eq!(active_line(&s, 5_000), 1);
    assert_eq!(active_line(&s, 99_000), 1);
    // Before anything starts the first line is centred.
    assert_eq!(active_line(&s, -10), 0);
    assert_eq!(active_line(&[], 10), 0);
}

#[test]
fn a_gap_line_is_the_note_pattern_for_the_break() {
    let out = inject_gaps(vec![line(0, 1_000), line(9_000, 10_000)]);
    assert_eq!(out[1].words.len(), 1);
    assert_eq!(out[1].words[0].data, sound_player::config::GAP_TEXT);
    assert_eq!(out[1].text(), sound_player::config::GAP_TEXT);
    // The lead gap runs from the top to just before the first line.
    let lead = inject_gaps(vec![line(4_000, 5_000)]);
    assert_eq!(lead[0].start(), 0);
    assert_eq!(lead[0].end(), 3_500);
}

#[test]
fn gaps_never_drop_or_reorder_a_lyric_line() {
    let input = vec![line(4_000, 5_000), line(5_100, 6_000), line(20_000, 21_000)];
    let out = inject_gaps(input.clone());
    let real: Vec<(i64, i64)> = out.iter().filter(|s| !s.is_gap).map(|s| (s.start(), s.end())).collect();
    let before: Vec<(i64, i64)> = input.iter().map(|s| (s.start(), s.end())).collect();
    assert_eq!(real, before);
    assert_eq!(out.len(), 5);
}

#[test]
fn preparing_trims_words_and_drops_empty_lines() {
    let raw = vec![
        Sentence {
            words: vec![
                Word { start_time: 0, end_time: 400, data: "  xin ".into() },
                Word { start_time: 400, end_time: 900, data: "\tchào\n".into() },
            ],
            is_gap: false,
        },
        Sentence { words: vec![], is_gap: false },
        Sentence { words: vec![Word { start_time: 1_000, end_time: 1_500, data: " bạn".into() }], is_gap: false },
    ];
    let out = prepare(raw);
    assert_eq!(out.len(), 2);
    assert_eq!(out[0].text(), "xin chào");
    assert_eq!(out[1].text(), "bạn");
}

#[test]
fn the_text_of_a_line_has_single_spaces_and_no_trailing_one() {
    let s = Sentence {
        words: vec![
            Word { start_time: 0, end_time: 1, data: "Đừng".into() },
            Word { start_time: 1, end_time: 2, data: "về".into() },
            Word { start_time: 2, end_time: 3, data: "trễ".into() },
        ],
        is_gap: false,
    };
    assert_eq!(s.text(), "Đừng về trễ");
    assert_eq!(s.start(), 0);
    assert_eq!(s.end(), 3);
    let empty = Sentence { words: vec![], is_gap: false };
    assert_eq!(empty.text(), "");
    assert_eq!(empty.start(), 0);
    assert_eq!(empty.end(), 0);
}

#[test]
fn time_parsing_skips_pieces_that_are_not_numbers() {
    assert_eq!(parse_time("1:2:3"), 3_723_000);
    assert_eq!(parse_time("-1:30"), -30_000);
    assert_eq!(parse_time("x:01:02"), 62_000);
    assert_eq!(parse_time("5"), 0);
    assert_eq!(parse_time(""), 0);
    assert_eq!(parse_time("1:2:3:4"), 0);
}

#[test]
fn an_overflowing_time_is_refused_rather_than_wrapped() {
    assert_eq!(checked_parse_time("0:01:02"), Some(62_000));
    assert_eq!(checked_parse_time("nonsense"), Some(0));
    assert_eq!(checked_parse_time("9223372036854775807:00"), None);
}
