use sound_player::ui::header::{live_dot_on, track_badge};

#[test]
fn the_live_dot_blinks_every_half_second() {
    assert!(live_dot_on(0));
    assert!(live_dot_on(499));
    assert!(!live_dot_on(500));
    assert!(!live_dot_on(999));
    assert!(live_dot_on(1_000));
    assert!(live_dot_on(-499));
    assert!(!live_dot_on(-500));
}

#[test]
fn the_badge_counts_from_one_and_only_shows_for_a_real_playlist() {
    assert_eq!(track_badge(0, 3), Some(" [1/3]".to_string()));
    assert_eq!(track_badge(9, 12), Some(" [10/12]".to_string()));
    assert_eq!(track_badge(0, 1), None);
    assert_eq!(track_badge(0, 0), None);
}
