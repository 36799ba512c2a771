use sound_player::braille::Canvas;
use sound_player::ui::spectrum::{bar_rows, column_span, draw, runs, Layer, Style};

const DRAWN: [Style; 4] = [Style::Curve, Style::Mirror, Style::Line, Style::Bars];

/// Column heights in dots, the way the drawing code scales levels: each
/// level of the span a style measures against, rounded.
fn tops(levels: &[f32], style: Style, cells_h: usize) -> Vec<usize> {
    let span = column_span(style, cells_h * 4);
    levels.iter().map(|l| (l * span as f32).round() as usize).collect()
}

/// Peak heights in dots, against the whole height.
fn peak_tops(peaks: &[f32], cells_h: usize) -> Vec<usize> {
    peaks.iter().map(|p| (p * (cells_h * 4) as f32).round() as usize).collect()
}

fn drawn(levels: &[f32], peaks: &[f32], cells_w: usize, cells_h: usize, style: Style) -> (Canvas, Canvas, Canvas) {
    draw(&tops(levels, style, cells_h), &peak_tops(peaks, cells_h), cells_w, cells_h, style)
}

/// Bar heights in eighths of a row, one per terminal column, each the mean
/// of the two dot columns behind it.
fn bars(levels: &[f32], cells_w: usize, cells_h: usize) -> Vec<String> {
    let steps = cells_h * 8;
    let filled: Vec<usize> = (0..cells_w)
        .map(|x| {
            let level = match (levels.get(x * 2), levels.get(x * 2 + 1)) {
                (Some(&l), Some(&r)) => (l + r) / 2.0,
                (Some(&l), None) => l,
                _ => 0.0,
            };
            (level * steps as f32).round() as usize
        })
        .collect();
    bar_rows(&filled, cells_h)
}

fn column_steps(rows: &[String], x: usize) -> usize {
    const BLOCKS: [char; 9] = [' ', '\u{2581}', '\u{2582}', '\u{2583}', '\u{2584}', '\u{2585}', '\u{2586}', '\u{2587}', '\u{2588}'];
    rows.iter()
        .map(|r| {
            let ch = r.chars().nth(x).unwrap();
            BLOCKS.iter().position(|&b| b == ch).expect("not a block char")
        })
        .sum()
}

fn dot_lit(rows: &[String], x: usize, y: usize) -> bool {
    const DOT: [[u8; 2]; 4] = [[0x01, 0x08], [0x02, 0x10], [0x04, 0x20], [0x40, 0x80]];
    let ch = rows[y / 4].chars().nth(x / 2).unwrap();
    (ch as u32 - 0x2800) as u8 & DOT[y % 4][x % 2] != 0
}

#[test]
fn a_silent_spectrum_draws_nothing() {
    let levels = vec![0.0; 8];
    for style in DRAWN {
        if style == Style::Bars {
            assert!(bars(&levels, 4, 2).iter().all(|r| r.chars().all(|c| c == ' ')));
            continue;
        }
        let (fill, edge, peak) = drawn(&levels, &levels, 4, 2, style);
        for canvas in [fill, edge, peak] {
            assert!(
                canvas.rows().iter().all(|r| r.chars().all(|c| c == '\u{2800}')),
                "{style:?} drew something for silence"
            );
        }
    }
}

#[test]
fn a_bar_column_is_solid_from_the_bottom_up() {
    let n = 64;
    let levels: Vec<f32> = (0..n).map(|i| i as f32 / n as f32).collect();
    let rows = bars(&levels, n / 2, 4);

    for x in 0..n / 2 {
        let cells: Vec<char> = rows.iter().map(|r| r.chars().nth(x).unwrap()).collect();
        let mut seen_partial = false;
        let mut seen_full = false;
        for (r, &c) in cells.iter().enumerate() {
            match c {
                ' ' => assert!(
                    !seen_partial && !seen_full,
                    "column {x} has a gap above a filled cell at row {r}: {cells:?}"
                ),
                '\u{2588}' => seen_full = true,
                _ => {
                    assert!(!seen_partial, "column {x} has two partial cells: {cells:?}");
                    assert!(!seen_full, "column {x} is partial below a full cell: {cells:?}");
                    seen_partial = true;
                }
            }
        }
    }
}

#[test]
fn a_bar_height_matches_the_level_it_came_from() {
    let cells_h = 4;
    let steps = cells_h * 8;

    for level in [0.0f32, 0.1, 0.25, 0.5, 0.75, 0.99, 1.0] {
        let rows = bars(&vec![level; 8], 4, cells_h);
        let want = (level * steps as f32).round() as usize;
        for x in 0..4 {
            assert_eq!(column_steps(&rows, x), want, "level {level} drew {} steps, wanted {want}", column_steps(&rows, x));
        }
    }
}

#[test]
fn bars_cover_the_whole_spectrum() {
    let n = 64;
    let levels: Vec<f32> = (0..n).map(|i| if i < n / 2 { 0.0 } else { 1.0 }).collect();
    let rows = bars(&levels, n / 2, 4);
    for x in 0..n / 4 {
        assert_eq!(column_steps(&rows, x), 0, "left half should be silent at {x}");
    }
    for x in n / 4..n / 2 {
        assert_eq!(column_steps(&rows, x), 32, "right half should be full at {x}");
    }
}

#[test]
fn a_bar_never_stands_taller_than_its_rows() {
    let rows = bar_rows(&vec![1_000, 3], 2);
    assert_eq!(rows, vec!["\u{2588} ".to_string(), "\u{2588}\u{2583}".to_string()]);
}

#[test]
fn cycling_visits_every_style_including_off_and_comes_back() {
    let mut seen = vec![Style::default()];
    let mut s = Style::default();
    for _ in 0..Style::ALL.len() {
        s = s.next();
        if s != Style::default() {
            seen.push(s);
        }
    }
    assert_eq!(s, Style::default(), "cycling should return to the start");
    for style in Style::ALL {
        assert!(seen.contains(&style), "{style:?} is unreachable from S");
    }
    assert!(seen.contains(&Style::Off), "S cannot switch the spectrum off");
}

#[test]
fn only_off_is_invisible() {
    assert!(!Style::Off.is_visible());
    for style in DRAWN {
        assert!(style.is_visible(), "{style:?} should draw something");
    }
}

#[test]
fn every_style_fills_the_width_it_is_given() {
    let levels = vec![0.6; 16];
    for style in DRAWN {
        let rows: Vec<String> = if style == Style::Bars {
            bars(&levels, 8, 2)
        } else {
            let (fill, edge, peak) = drawn(&levels, &levels, 8, 2, style);
            let (f, e, p) = (fill.rows(), edge.rows(), peak.rows());
            (0..2).map(|r| runs(&f[r], &e[r], &p[r]).into_iter().map(|(t, _)| t).collect()).collect()
        };
        assert_eq!(rows.len(), 2, "{style:?} row count");
        for row in rows {
            assert_eq!(row.chars().count(), 8, "{style:?} row width");
        }
    }
}

#[test]
fn mirror_grows_from_the_middle_and_the_others_from_the_bottom() {
    let levels = vec![0.5; 2];

    let (_, edge, _) = drawn(&levels, &[0.0, 0.0], 1, 2, Style::Mirror);
    let rows = edge.rows();
    let lit: Vec<usize> = (0..8).filter(|&y| dot_lit(&rows, 0, y)).collect();
    assert!(!lit.is_empty(), "mirror drew nothing");
    for y in &lit {
        assert!(lit.contains(&(7 - y)), "asymmetric at y={y}: {lit:?}");
    }

    let (_, edge, _) = drawn(&levels, &[0.0, 0.0], 1, 2, Style::Line);
    let lit: Vec<usize> = (0..8).filter(|&y| dot_lit(&edge.rows(), 0, y)).collect();
    assert_eq!(lit, vec![4], "line should sit at half height, got {lit:?}");
}

#[test]
fn the_crest_sits_at_the_top_of_each_column() {
    let (_, edge, _) = drawn(&[1.0, 0.0], &[0.0, 0.0], 1, 1, Style::Curve);
    let row = &edge.rows()[0];
    // Dot (0,0) is bit 0x01, so U+2801.
    assert_eq!(row.chars().next().unwrap(), '\u{2801}');
}

#[test]
fn peaks_only_show_once_they_clear_the_crest() {
    let (_, _, touching) = drawn(&[0.5, 0.5], &[0.5, 0.5], 1, 2, Style::Curve);
    assert!(touching.rows().iter().all(|r| r.chars().all(|c| c == '\u{2800}')));

    let (_, _, separated) = drawn(&[0.5, 0.5], &[1.0, 1.0], 1, 2, Style::Curve);
    assert!(separated.rows().iter().any(|r| r.chars().any(|c| c != '\u{2800}')));
}

#[test]
fn the_curve_body_is_a_checkerboard_under_the_crest() {
    // One cell, a column four dots high in dot column 0: crest at row 0,
    // body on rows 2 (0 + 2 is even); rows 1 and 3 are left dark.
    let (fill, edge, _) = draw(&vec![4, 0], &vec![0, 0], 1, 1, Style::Curve);
    let f = fill.rows();
    let e = edge.rows();
    assert!(dot_lit(&e, 0, 0));
    assert!(!dot_lit(&f, 0, 1));
    assert!(dot_lit(&f, 0, 2));
    assert!(!dot_lit(&f, 0, 3));
    // The line style has no body at all.
    let (fill, _, _) = draw(&vec![4, 0], &vec![0, 0], 1, 1, Style::Line);
    assert!(fill.rows().iter().all(|r| r.chars().all(|c| c == '\u{2800}')));
}

#[test]
fn adjacent_cells_of_one_colour_become_a_single_run() {
    let out = runs(
        "\u{2800}\u{2800}\u{2800}\u{2800}",
        "\u{2801}\u{2801}\u{2800}\u{2800}",
        "\u{2800}\u{2800}\u{2800}\u{2800}",
    );
    assert_eq!(out.len(), 2);
    assert_eq!(out[0].0.chars().count(), 2);
    assert!(matches!(out[0].1, Layer::Edge));
    assert!(matches!(out[1].1, Layer::Empty));
}

#[test]
fn a_cell_takes_the_colour_of_its_highest_layer() {
    let out = runs("\u{2802}", "\u{2801}", "\u{2804}");
    assert!(matches!(out[0].1, Layer::Peak));
    assert_eq!(out[0].0, "\u{2807}");
}

#[test]
fn the_mirror_measures_against_half_the_height() {
    assert_eq!(column_span(Style::Mirror, 16), 8);
    assert_eq!(column_span(Style::Curve, 16), 16);
    assert_eq!(column_span(Style::Bars, 16), 16);
}
