use sound_player::lyrics::{Sentence, Word};
use sound_player::ui::lyric_line::Status;
use sound_player::ui::window::{visible_slots, Slot};

fn line(start: i64, end: i64, is_gap: bool) -> Sentence {
    Sentence { words: vec![Word { start_time: start, end_time: end, data: "x".into() }], is_gap }
}

#[test]
fn the_window_is_centred_on_the_line_being_sung() {
    let s = vec![line(0, 900, false), line(1_000, 1_900, false), line(2_000, 2_900, false)];
    let slots = visible_slots(&s, 1, 2, true, 0);
    assert_eq!(
        slots,
        vec![
            Slot::Blank,
            Slot::Line { index: 0, status: Status::Past },
            Slot::Line { index: 1, status: Status::Active },
            Slot::Line { index: 2, status: Status::Future },
            Slot::Blank,
        ]
    );
}

#[test]
fn lines_after_an_upcoming_break_stay_hidden() {
    let s = vec![line(0, 900, false), line(1_400, 8_500, true), line(9_000, 9_900, false)];
    let slots = visible_slots(&s, 0, 2, true, 0);
    assert_eq!(slots[3], Slot::Line { index: 1, status: Status::Future });
    assert_eq!(slots[4], Slot::Blank);
}

#[test]
fn lines_before_the_start_time_are_blank_until_a_seek() {
    let s = vec![line(0, 900, false), line(1_000, 1_900, false), line(2_000, 2_900, false)];
    let slots = visible_slots(&s, 2, 1, false, 1_950);
    assert_eq!(slots[0], Slot::Blank);
    assert_eq!(slots[1], Slot::Line { index: 2, status: Status::Active });
    let slots = visible_slots(&s, 2, 1, true, 1_950);
    assert_eq!(slots[0], Slot::Line { index: 1, status: Status::Past });
}
