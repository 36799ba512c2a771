use sound_player::i18n::Language;

#[test]
fn language_cycling() {
    assert_eq!(Language::Vietnamese.next(), Language::English);
    assert_eq!(Language::English.next(), Language::Vietnamese);
}

#[test]
fn language_json_loaded_correctly() {
    assert_eq!(Language::Vietnamese.code(), "vi");
    assert_eq!(Language::English.code(), "en");
    assert_eq!(Language::Vietnamese.name(), "Tiếng Việt");
    assert_eq!(Language::English.name(), "English");
    assert_eq!(Language::Vietnamese.th_title(), "TÊN BÀI HÁT");
    assert_eq!(Language::English.th_title(), "TRACK TITLE");
    assert!(Language::Vietnamese.no_lyrics_text().contains("không có lời"));
}

#[test]
fn two_presses_come_back_to_the_start() {
    for l in Language::ALL {
        assert_eq!(l.next().next(), l);
        assert_ne!(l.next(), l);
    }
    assert_eq!(Language::default(), Language::Vietnamese);
}

#[test]
fn the_keybinds_guide_names_the_current_choices() {
    let guide = Language::English.keybinds_guide("curve", "ocean");
    assert!(guide.contains("[S]"));
    assert!(guide.contains("curve"));
    assert!(guide.contains("ocean"));
    assert!(guide.contains("EN"));
    let vi = Language::Vietnamese.keybinds_guide("off", "mono");
    assert!(vi.contains("VI"));
}

#[test]
fn the_whole_locale_matches_the_accessors() {
    for l in Language::ALL {
        let c = l.config();
        assert_eq!(c.code, l.code());
        assert_eq!(c.name, l.name());
        assert_eq!(c.status.live, l.live_label());
        assert_eq!(c.status.paused, l.paused_label());
        assert_eq!(c.player.no_lyrics, l.no_lyrics_text());
    }
}

#[test]
fn the_guide_takes_the_code_as_given() {
    let guide = Language::English.guide_with("bars", "mono", "XX");
    assert!(guide.ends_with(": XX  [Q] Quit"));
    assert!(guide.contains("bars") && guide.contains("mono"));
}
