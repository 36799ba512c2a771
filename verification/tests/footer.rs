use sound_player::lyrics::parse_time;
use sound_player::config;
use sound_player::ui::footer::{bar_parts, scroll_ticker, column_target, long_time, short_time, ticker_text, timeline_rows};

/// A progress of `step / steps`, written as elapsed time over song length.
fn parts(step: i64, steps: i64, width: usize) -> (usize, usize) {
    bar_parts(step, steps, width)
}

#[test]
fn formats_times_and_clamps_negatives() {
    assert_eq!(short_time(62_000), "01:02");
    assert_eq!(short_time(0), "00:00");
    assert_eq!(short_time(-500), "00:00");
    assert_eq!(long_time(62_345), "01:02.345");
    assert_eq!(short_time(3_599_000), "59:59");
}

#[test]
fn the_ticker_scrolls_and_wraps() {
    let first = ticker_text("ABC", 0, 8);
    let later = ticker_text("ABC", 700, 8);
    assert_ne!(first, later);
    assert_eq!(first.chars().count(), 8);

    // A full trip round the pattern returns to the start.
    let unit_len = "ABC".len() + 12 + 1 + 12;
    let wrapped = ticker_text("ABC", unit_len as i64 * config::TICKER_SCROLL_MS, 8);
    assert_eq!(first, wrapped);
}

#[test]
fn the_bar_always_spans_exactly_its_width() {
    for width in [10usize, 11, 46, 47, 80] {
        for step in 0..=20 {
            let (filled, empty) = parts(step, 20, width);
            assert_eq!(
                filled + 1 + empty,
                width,
                "width {width} at progress {step}/20: {filled} + marker + {empty}"
            );
        }
    }
}

#[test]
fn the_marker_starts_at_the_left_and_ends_at_the_right() {
    let width = 40;
    assert_eq!(parts(0, 1, width).0, 0, "marker should start at column 0");
    assert_eq!(parts(1, 1, width).1, 0, "marker should finish at the last column");
}

#[test]
fn the_bar_never_runs_backwards() {
    let width = 46;
    let mut last = 0;
    for step in 0..=100 {
        let filled = parts(step, 100, width).0;
        assert!(filled >= last, "went backwards at {step}%");
        last = filled;
    }
}

#[test]
fn out_of_range_progress_is_clamped() {
    let width = 30;
    assert_eq!(parts(-1, 1, width), parts(0, 1, width));
    assert_eq!(parts(5, 1, width), parts(1, 1, width));
}

#[test]
fn the_bar_rounds_to_the_nearest_column() {
    // 45 usable columns, half way: 22.5 rounds up.
    assert_eq!(bar_parts(1, 2, 46), (23, 22));
    assert_eq!(bar_parts(1, 3, 31), (10, 20));
    assert_eq!(bar_parts(2, 3, 31), (20, 10));
    // A song with no length reads as not started.
    assert_eq!(bar_parts(500, 0, 20), (0, 19));
    // A bar with no room for anything but the marker.
    assert_eq!(bar_parts(1, 2, 1), (0, 0));
    assert_eq!(bar_parts(1, 2, 0), (0, 0));
}

#[test]
fn a_click_on_the_bar_seeks_to_its_share_of_the_song() {
    // Eleven columns: ten usable, so each column is a tenth.
    assert_eq!(column_target(0, 11, 200_000), 0);
    assert_eq!(column_target(5, 11, 200_000), 100_000);
    assert_eq!(column_target(10, 11, 200_000), 200_000);
    // Past the end seeks to the end.
    assert_eq!(column_target(99, 11, 200_000), 200_000);
    // Rounded toward zero.
    assert_eq!(column_target(1, 4, 10), 3);
    assert_eq!(column_target(3, 1, 10), 0);
}

#[test]
fn the_timeline_is_one_row_when_the_waveform_is_off() {
    assert_eq!(timeline_rows(), if config::WAVEFORM_TIMELINE { 2 } else { 1 });
}

#[test]
fn long_times_pad_every_field() {
    assert_eq!(long_time(0), "00:00.000");
    assert_eq!(long_time(-1), "00:00.000");
    assert_eq!(long_time(3_723_004), "62:03.004");
    assert_eq!(short_time(6_000_000), "100:00");
}

#[test]
fn a_long_title_gets_less_padding() {
    let title = "A Title Of Sixteen";
    let text = ticker_text(title, 0, 40);
    assert_eq!(text.chars().count(), 40);
    assert!(text.starts_with("A TITLE OF SIXTEEN      •      A TITLE"));
    assert_eq!(ticker_text("x", 0, 3).chars().count(), 3);
}

#[test]
fn the_ticker_scrolls_a_title_given_in_capitals() {
    // A short title gets twelve spaces either side of the bullet.
    assert_eq!(scroll_ticker("AB", 2, 0, 6), "AB    ");
    assert_eq!(scroll_ticker("AB", 2, 350, 3), "B  ");
    // The lap is 2 + 12 + 1 + 12 = 27 columns; a lap later it repeats.
    assert_eq!(scroll_ticker("AB", 2, 27 * 350, 5), scroll_ticker("AB", 2, 0, 5));
    // Before the song starts nothing scrolls.
    assert_eq!(scroll_ticker("AB", 2, -9_000, 2), "AB");
}

#[test]
fn the_clock_reads_back_as_whole_seconds() {
    assert_eq!(parse_time(&short_time(62_000)), 62_000);
    assert_eq!(parse_time(&short_time(62_999)), 62_000);
    assert_eq!(parse_time(&short_time(-5)), 0);
    assert_eq!(parse_time(&short_time(7_384_500)), 7_384_000);
}
