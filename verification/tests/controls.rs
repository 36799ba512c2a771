use sound_player::color::ThemePreset;
use sound_player::i18n::Language;
use sound_player::ui::controls::{Action, Controls, Key, KeyContext};
use sound_player::ui::playlist_modal::ModalTab;
use sound_player::ui::spectrum::Style;

fn ctx() -> KeyContext {
    KeyContext { folder_count: 3, track_count: 4, track_index: 2 }
}

#[test]
fn quitting_from_the_main_screen() {
    let mut c = Controls::new(0);
    assert_eq!(c.handle_key(Key::Char('q'), &ctx()), Action::Nothing);
    assert!(c.should_exit);
    let mut c = Controls::new(0);
    c.handle_key(Key::Esc, &ctx());
    assert!(c.should_exit);
}

#[test]
fn the_main_keys_cycle_and_toggle() {
    let mut c = Controls::new(0);
    let start_style = c.spectrum_style;
    c.handle_key(Key::Char('s'), &ctx());
    assert_eq!(c.spectrum_style, start_style.next());
    c.handle_key(Key::Char('C'), &ctx());
    assert_eq!(c.color_theme, ThemePreset::Cyberpunk);
    c.handle_key(Key::Char('i'), &ctx());
    assert_eq!(c.lang, Language::English);
    let before = c.show_note;
    c.handle_key(Key::Char('n'), &ctx());
    assert_eq!(c.show_note, !before);
    let before = c.show_keybinds;
    c.handle_key(Key::Char('H'), &ctx());
    assert_eq!(c.show_keybinds, !before);
}

#[test]
fn transport_keys_become_actions() {
    let mut c = Controls::new(0);
    assert_eq!(c.handle_key(Key::Char(' '), &ctx()), Action::TogglePlayback);
    assert_eq!(c.handle_key(Key::Char('['), &ctx()), Action::PrevTrack);
    assert_eq!(c.handle_key(Key::Char('o'), &ctx()), Action::NextTrack);
    assert!(!c.render_past || sound_player::config::RENDER_PAST_ON_START);
    assert_eq!(c.handle_key(Key::Left, &ctx()), Action::SeekBy(-5_000));
    assert!(c.render_past);
    assert_eq!(c.handle_key(Key::Right, &ctx()), Action::SeekBy(5_000));
}

#[test]
fn the_track_list_opens_on_the_track_being_played() {
    let mut c = Controls::new(0);
    c.handle_key(Key::Char('l'), &ctx());
    assert!(c.show_playlist);
    assert_eq!(c.modal_tab, ModalTab::Tracks);
    assert_eq!(c.playlist_cursor, 2);
    // Down wraps round the four tracks.
    c.handle_key(Key::Down, &ctx());
    c.handle_key(Key::Char('j'), &ctx());
    assert_eq!(c.playlist_cursor, 0);
    c.handle_key(Key::Up, &ctx());
    assert_eq!(c.playlist_cursor, 3);
    assert_eq!(c.handle_key(Key::Enter, &ctx()), Action::SwitchTrack(3));
    assert!(!c.show_playlist);
}

#[test]
fn adding_a_folder_types_a_trimmed_path() {
    let mut c = Controls::new(0);
    c.handle_key(Key::Char('f'), &ctx());
    assert_eq!(c.modal_tab, ModalTab::Folders);
    assert_eq!(c.folder_cursor, 0);
    c.handle_key(Key::Char('a'), &ctx());
    assert!(c.is_adding_folder);
    for ch in " /musicx ".chars() {
        c.handle_key(Key::Char(ch), &ctx());
    }
    // While typing, letters are text, not commands.
    assert!(c.show_playlist && !c.should_exit);
    c.handle_key(Key::Backspace, &ctx());
    c.handle_key(Key::Backspace, &ctx());
    assert_eq!(c.folder_input, " /music");
    assert_eq!(c.handle_key(Key::Enter, &ctx()), Action::AddFolder("/music".to_string()));
    assert!(!c.is_adding_folder);
    assert_eq!(c.folder_input, "");
}

#[test]
fn an_empty_path_adds_nothing() {
    let mut c = Controls::new(0);
    c.handle_key(Key::Char('f'), &ctx());
    c.handle_key(Key::Char('a'), &ctx());
    c.handle_key(Key::Char(' '), &ctx());
    assert_eq!(c.handle_key(Key::Enter, &ctx()), Action::Nothing);
}

#[test]
fn escape_backs_out_one_level_at_a_time() {
    let mut c = Controls::new(0);
    c.handle_key(Key::Char('f'), &ctx());
    c.handle_key(Key::Char('a'), &ctx());
    c.handle_key(Key::Esc, &ctx());
    assert!(c.show_playlist && !c.is_adding_folder && !c.should_exit);
    c.handle_key(Key::Esc, &ctx());
    assert!(!c.show_playlist && !c.should_exit);
    c.handle_key(Key::Esc, &ctx());
    assert!(c.should_exit);
}

#[test]
fn the_folder_tab_keys() {
    let mut c = Controls::new(0);
    c.handle_key(Key::Char('f'), &ctx());
    c.handle_key(Key::Char('k'), &ctx());
    assert_eq!(c.folder_cursor, 2);
    assert_eq!(c.handle_key(Key::Char('d'), &ctx()), Action::Nothing);
    assert_eq!(c.handle_key(Key::Char('Y'), &ctx()), Action::RemoveFolder(2));
    assert_eq!(c.handle_key(Key::Char('R'), &ctx()), Action::Rescan);
    c.folders_changed(2);
    assert_eq!(c.folder_cursor, 1);
    c.folders_changed(0);
    assert_eq!(c.folder_cursor, 1);
    c.handle_key(Key::Char('t'), &ctx());
    assert_eq!(c.modal_tab, ModalTab::Tracks);
    c.handle_key(Key::Char('2'), &ctx());
    assert_eq!(c.modal_tab, ModalTab::Folders);
}

#[test]
fn the_player_starts_from_the_configuration() {
    let c = Controls::new(5);
    assert_eq!(c.playlist_cursor, 5);
    assert!(!c.show_playlist && !c.should_exit && !c.is_adding_folder);
    assert_eq!(c.lang, Language::Vietnamese);
    assert_eq!(c.color_theme, ThemePreset::Emerald);
    let expected = if sound_player::config::SHOW_SPECTRUM { Style::Curve } else { Style::Off };
    assert_eq!(c.spectrum_style, expected);
}

#[test]
fn deleting_a_folder_waits_for_yes() {
    let mut c = Controls::new(0);
    c.handle_key(Key::Char('F'), &ctx());
    c.handle_key(Key::Down, &ctx());
    assert_eq!(c.handle_key(Key::Char('D'), &ctx()), Action::Nothing);
    assert!(c.confirming_delete);
    // Other keys wait for the answer.
    assert_eq!(c.handle_key(Key::Char('q'), &ctx()), Action::Nothing);
    assert_eq!(c.handle_key(Key::Down, &ctx()), Action::Nothing);
    assert!(!c.should_exit && c.folder_cursor == 1 && c.confirming_delete);
    assert_eq!(c.handle_key(Key::Char('y'), &ctx()), Action::RemoveFolder(1));
    assert!(!c.confirming_delete && c.show_playlist);
}

#[test]
fn no_or_escape_keeps_the_folder() {
    let mut c = Controls::new(0);
    c.handle_key(Key::Char('f'), &ctx());
    assert_eq!(c.handle_key(Key::Char('d'), &ctx()), Action::Nothing);
    assert_eq!(c.handle_key(Key::Char('n'), &ctx()), Action::Nothing);
    assert!(!c.confirming_delete && c.show_playlist);
    assert_eq!(c.handle_key(Key::Char('d'), &ctx()), Action::Nothing);
    assert_eq!(c.handle_key(Key::Esc, &ctx()), Action::Nothing);
    assert!(!c.confirming_delete && c.show_playlist);
    // With the question gone, `y` is an ordinary key again.
    assert_eq!(c.handle_key(Key::Char('y'), &ctx()), Action::Nothing);
}

#[test]
fn nothing_to_delete_asks_nothing() {
    let mut c = Controls::new(0);
    c.handle_key(Key::Char('f'), &ctx());
    let empty = KeyContext { folder_count: 0, ..ctx() };
    assert_eq!(c.handle_key(Key::Char('d'), &empty), Action::Nothing);
    assert!(!c.confirming_delete);
}

#[test]
fn closing_the_dialog_drops_the_question() {
    let mut c = Controls::new(0);
    c.handle_key(Key::Char('f'), &ctx());
    c.handle_key(Key::Char('d'), &ctx());
    c.close_clicked();
    assert!(!c.confirming_delete && !c.show_playlist);
}

#[test]
fn page_keys_jump_a_page_in_the_dialog() {
    let big = KeyContext { folder_count: 3, track_count: 25, track_index: 0 };
    let mut c = Controls::new(0);
    c.handle_key(Key::Char('l'), &big);
    c.handle_key(Key::PageDown, &big);
    assert_eq!(c.playlist_cursor, 10);
    c.handle_key(Key::Right, &big);
    assert_eq!(c.playlist_cursor, 20);
    c.handle_key(Key::PageDown, &big);
    assert_eq!(c.playlist_cursor, 24);
    c.handle_key(Key::Left, &big);
    assert_eq!(c.playlist_cursor, 14);
    c.handle_key(Key::PageUp, &big);
    c.handle_key(Key::PageUp, &big);
    assert_eq!(c.playlist_cursor, 0);
    // On the folders tab the same keys page the folder list.
    c.handle_key(Key::Char('2'), &big);
    c.handle_key(Key::PageDown, &big);
    assert_eq!(c.folder_cursor, 2);
    c.handle_key(Key::PageUp, &big);
    assert_eq!(c.folder_cursor, 0);
}
