use sound_player::i18n::Phrase;
use sound_player::playlist::Track;
use sound_player::ui::playlist_modal::{
    folder_row, footer_hint, modal_width, page_of, track_row, Emphasis, ModalTab, RowMark,
};

fn track(artist: &str) -> Track {
    Track { id: "t".into(), title: "Tìm Em".into(), artist: artist.into(), audio: "a.mp3".into(), lyrics: String::new() }
}

#[test]
fn the_playing_track_is_marked_and_badged() {
    let row = track_row(2, &track("Hngle"), 2, 0, true);
    assert_eq!(row.mark, RowMark::Playing);
    assert_eq!(row.emphasis, Emphasis::Current);
    assert!(row.live_badge);
    assert_eq!(row.number, "[03] ");
    assert_eq!(row.title, "Tìm Em");
    assert_eq!(row.artist, " - Hngle");
    let paused = track_row(2, &track("Hngle"), 2, 2, false);
    assert_eq!(paused.mark, RowMark::Paused);
}

#[test]
fn the_cursor_row_is_marked_when_it_is_not_the_playing_one() {
    let row = track_row(0, &track("Unknown Artist"), 2, 0, true);
    assert_eq!(row.mark, RowMark::Cursor);
    assert_eq!(row.emphasis, Emphasis::Selected);
    assert!(!row.live_badge);
    assert_eq!(row.artist, "");
    let plain = track_row(99, &track(""), 2, 0, true);
    assert_eq!(plain.mark, RowMark::Blank);
    assert_eq!(plain.emphasis, Emphasis::Plain);
    assert_eq!(plain.number, "[100] ");
}

#[test]
fn folder_rows_number_from_one() {
    let row = folder_row(0, 0);
    assert!(row.selected);
    assert_eq!(row.number, "[01] ");
    assert!(!folder_row(1, 0).selected);
}

#[test]
fn the_dialog_is_capped_and_hints_follow_the_tab() {
    assert_eq!(modal_width(200), 88);
    assert_eq!(modal_width(40), 40);
    assert_eq!(footer_hint(ModalTab::Tracks, true, false), Phrase::FooterHints);
    assert_eq!(footer_hint(ModalTab::Folders, true, false), Phrase::AddFolderHints);
    assert_eq!(footer_hint(ModalTab::Folders, false, false), Phrase::FolderFooterHints);
    assert_eq!(footer_hint(ModalTab::Folders, false, true), Phrase::ConfirmDeleteHints);
}

#[test]
fn the_dialog_shows_the_page_holding_the_cursor() {
    assert_eq!(page_of(0, 0), (0, 0));
    assert_eq!(page_of(0, 25), (0, 10));
    assert_eq!(page_of(13, 25), (10, 20));
    assert_eq!(page_of(24, 25), (20, 25));
    assert_eq!(page_of(99, 25), (20, 25));
    assert_eq!(page_of(9, 10), (0, 10));
}
