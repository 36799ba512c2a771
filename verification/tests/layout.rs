use sound_player::config;
use sound_player::ui::footer::timeline_rows;
use sound_player::ui::layout::{Layout, ESSENTIAL_ROWS};

/// The fewest rows anything can be drawn in: the frame, the header, the
/// timeline, and one line to sing.
fn minimum_rows() -> usize {
    ESSENTIAL_ROWS + timeline_rows() + 1
}

#[test]
fn hiding_the_spectrum_gives_the_rows_back() {
    for h in 10..40usize {
        let on = Layout::measure_with(80, h, true);
        let off = Layout::measure_with(80, h, false);

        assert_eq!(off.spectrum_rows, 0, "at {h}: the spectrum still has rows");

        // Nothing may get worse.
        assert!(off.window >= on.window, "at {h}: lost lyric lines");
        assert!(off.line_spacing >= on.line_spacing, "at {h}: lost spacing");
        assert!(on.show_padding <= off.show_padding, "at {h}: lost padding");
        assert!(on.show_rules <= off.show_rules, "at {h}: lost the rules");
        assert!(on.show_ticker <= off.show_ticker, "at {h}: lost the ticker");
        assert!(on.show_transport <= off.show_transport, "at {h}: lost transport");

        assert!(on.rows_needed() <= h.max(minimum_rows()), "at {h}: on does not fit");
        assert!(off.rows_needed() <= h.max(minimum_rows()), "at {h}: off does not fit");
    }
}

#[test]
fn the_layout_still_fits_at_every_height_with_the_spectrum_off() {
    for h in 4..80usize {
        let l = Layout::measure_with(100, h, false);
        assert_eq!(l.spectrum_rows, 0);
        assert!(
            l.rows_needed() <= h.max(minimum_rows()),
            "at height {h}: wants {} rows, layout {l:?}",
            l.rows_needed()
        );
    }
}

#[test]
fn a_tall_terminal_gets_the_full_design() {
    let l = Layout::measure_with(120, 60, true);
    assert_eq!(l.window, config::WINDOW_SIZE);
    assert_eq!(l.line_spacing, config::LINE_SPACING);
    assert_eq!(l.spectrum_rows, config::SPECTRUM_ROWS);
    assert!(l.show_padding && l.show_rules && l.show_ticker && l.show_transport);
}

#[test]
fn a_standard_terminal_keeps_every_lyric_line() {
    let l = Layout::measure_with(80, 24, true);
    assert_eq!(l.window, config::WINDOW_SIZE);
    assert_eq!(l.line_spacing, 0, "the blank rows are the first thing to go");
    assert!(l.show_rules && l.show_ticker, "chrome should survive at 24 rows");
    assert!(l.rows_needed() <= 24);
}

#[test]
fn it_always_fits_and_always_shows_a_lyric() {
    for h in 4..80usize {
        let l = Layout::measure_with(100, h, true);
        assert!(
            l.rows_needed() <= h.max(minimum_rows()),
            "at height {h}: wants {} rows, layout {l:?}",
            l.rows_needed()
        );
        assert!(l.window >= 1, "at height {h} there is nothing to sing");
        assert_eq!(l.window % 2, 1, "at height {h} no line is centred");
    }
}

#[test]
fn chrome_is_dropped_in_order_of_importance() {
    let mut lost_transport = None;
    let mut lost_ticker = None;
    for h in (6..40usize).rev() {
        let l = Layout::measure_with(100, h, true);
        if !l.show_transport && lost_transport.is_none() {
            lost_transport = Some(h);
        }
        if !l.show_ticker && lost_ticker.is_none() {
            lost_ticker = Some(h);
        }
    }
    let (t, k) = (lost_transport.unwrap(), lost_ticker.unwrap());
    assert!(t >= k, "transport ({t}) should go before the ticker ({k})");
}

#[test]
fn the_smallest_useful_terminal_still_renders_something() {
    let l = Layout::measure_with(40, 6, true);
    assert_eq!(l.window, 1);
    assert_eq!(l.spectrum_rows, 0);
    assert!(!l.show_padding);
}

#[test]
fn the_panel_is_capped_so_lyrics_do_not_stretch_across_a_wide_screen() {
    assert_eq!(Layout::measure_with(400, 60, true).box_width, config::MAX_BOX_WIDTH);
}

#[test]
fn there_is_always_a_spare_column_inside_the_panel() {
    for w in [40usize, 60, 80, 100, 132, 200] {
        let l = Layout::measure_with(w, 40, true);
        assert!(
            l.inner_width + 12 < l.box_width || l.box_width < 33,
            "at {w} columns: inner {} fills box {} exactly",
            l.inner_width,
            l.box_width
        );
    }
}

#[test]
fn the_panel_never_reaches_the_edge_of_the_terminal() {
    for w in [40usize, 80, 100, 132, 200] {
        let l = Layout::measure_with(w, 40, true);
        assert!(
            l.box_width + 2 * config::SAFE_MARGIN <= w,
            "at {w} columns the panel is {} wide with no room to spare",
            l.box_width
        );
    }
}

#[test]
fn the_window_helpers_follow_the_measurement() {
    let l = Layout::measure_with(120, 60, true);
    assert_eq!(l.half_window(), (config::WINDOW_SIZE / 2) as i64);
    assert_eq!(l.padding_y(), 1);
    assert_eq!(l.lyric_margin(), 1);
    let tight = Layout::measure_with(40, 6, true);
    assert_eq!(tight.half_window(), 0);
    assert_eq!(tight.padding_y(), 0);
}

#[test]
fn nothing_given_up_would_have_fitted() {
    for h in 0..60 {
        let l = Layout::measure_with(100, h, true);
        if l.window < config::WINDOW_SIZE {
            assert!(Layout { window: l.window + 2, ..l }.rows_needed() > h);
        }
        if l.spectrum_rows < config::SPECTRUM_ROWS {
            let more = Layout { spectrum_rows: l.spectrum_rows + 1, window: config::WINDOW_SIZE, ..l };
            assert!(more.rows_needed() > h);
        }
    }
}

#[test]
fn padding_costs_a_margin_and_a_padding_row_at_each_end() {
    let l = Layout::measure_with(120, 60, true);
    assert!(l.show_padding);
    let bare = Layout { show_padding: false, ..l };
    assert_eq!(l.rows_needed(), bare.rows_needed() + 2 * l.lyric_margin() as usize + 2 * l.padding_y() as usize);
    assert_eq!(bare.lyric_margin(), 0);
}
