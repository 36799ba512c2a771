use sound_player::braille::Canvas;

#[test]
fn an_empty_canvas_is_blank_braille_not_spaces() {
    // U+2800 renders as blank but keeps the column width stable, which
    // matters when it sits next to lit cells.
    let rows = Canvas::new(3, 1).rows();
    assert_eq!(rows, vec!["\u{2800}\u{2800}\u{2800}"]);
}

#[test]
fn dots_map_to_the_expected_code_points() {
    let mut c = Canvas::new(1, 1);
    c.set(0, 0);
    assert_eq!(c.rows()[0], "\u{2801}");

    let mut c = Canvas::new(1, 1);
    c.set(1, 3);
    assert_eq!(c.rows()[0], "\u{2880}");

    let mut c = Canvas::new(1, 1);
    for y in 0..4 {
        for x in 0..2 {
            c.set(x, y);
        }
    }
    assert_eq!(c.rows()[0], "\u{28FF}");
}

#[test]
fn out_of_bounds_writes_are_dropped() {
    let mut c = Canvas::new(2, 1);
    c.set(99, 0);
    c.set(0, 99);
    assert_eq!(c.rows()[0], "\u{2800}\u{2800}");
}

#[test]
fn reports_dot_dimensions_not_cell_dimensions() {
    let c = Canvas::new(45, 4);
    assert_eq!(c.width(), 90);
    assert_eq!(c.height(), 16);
}

#[test]
fn setting_a_dot_twice_changes_nothing_more() {
    let mut once = Canvas::new(2, 2);
    once.set(3, 5);
    let mut twice = Canvas::new(2, 2);
    twice.set(3, 5);
    twice.set(3, 5);
    assert_eq!(once.rows(), twice.rows());
    // Dot (3, 5) is the right column, second row, of the lower right cell.
    assert_eq!(once.rows()[1], "\u{2800}\u{2810}");
    assert_eq!(once.rows()[0], "\u{2800}\u{2800}");
}

#[test]
fn every_row_has_one_character_per_cell() {
    let mut c = Canvas::new(5, 3);
    c.set(9, 11);
    let rows = c.rows();
    assert_eq!(rows.len(), 3);
    for row in &rows {
        assert_eq!(row.chars().count(), 5);
    }
    assert_eq!(rows[2].chars().nth(4), Some('\u{2880}'));
}

#[test]
fn every_row_is_as_wide_as_the_canvas() {
    let mut c = Canvas::new(4, 3);
    c.set(7, 11);
    let rows = c.rows();
    assert_eq!(rows.len(), 3);
    for row in &rows {
        assert_eq!(row.chars().count(), 4);
    }
}
