//! What a key press does.
//!
//! The interface state that keys change lives in `Controls`. A key press is
//! decided here, from that state, the key and a few facts about the library
//! (how many folders and tracks there are, which track is playing); the
//! decision is the new state and at most one action for the player or the
//! library, which the caller carries out. When the action changes the folder
//! list, the caller reports the new count back through `folders_changed`.

use vstd::prelude::*;

use crate::color::ThemePreset;
use crate::config;
use crate::i18n::Language;
use crate::text::{chars_of, push_char, spec_trim, string_of, trim_chars};
use crate::ui::playlist_modal::ModalTab;
use crate::ui::spectrum::Style;

verus! {

/// A key, as far as the player cares.
#[derive(Clone, Copy, Debug, PartialEq, Eq, Structural)]
pub enum Key {
    Char(char),
    Esc,
    Enter,
    Backspace,
    Up,
    Down,
    Left,
    Right,
    PageUp,
    PageDown,
    Other,
}

/// What the caller has to do after a key press.
#[derive(Clone, Debug, PartialEq, Eq)]
pub enum Action {
    Nothing,
    TogglePlayback,
    SeekBy(i64),
    PrevTrack,
    NextTrack,
    SwitchTrack(usize),
    AddFolder(String),
    /// Remove the folder at this position of the folder list, if there is
    /// one, and report the new count.
    RemoveFolder(usize),
    Rescan,
}

/// `Action` as plain values.
pub enum ActionView {
    Nothing,
    TogglePlayback,
    SeekBy(i64),
    PrevTrack,
    NextTrack,
    SwitchTrack(usize),
    AddFolder(Seq<char>),
    RemoveFolder(usize),
    Rescan,
}

impl View for Action {
    type V = ActionView;

    open spec fn view(&self) -> ActionView {
        match self {
            Action::Nothing => ActionView::Nothing,
            Action::TogglePlayback => ActionView::TogglePlayback,
            Action::SeekBy(d) => ActionView::SeekBy(*d),
            Action::PrevTrack => ActionView::PrevTrack,
            Action::NextTrack => ActionView::NextTrack,
            Action::SwitchTrack(i) => ActionView::SwitchTrack(*i),
            Action::AddFolder(p) => ActionView::AddFolder(p@),
            Action::RemoveFolder(i) => ActionView::RemoveFolder(*i),
            Action::Rescan => ActionView::Rescan,
        }
    }
}

/// What a key press needs to know about the library.
#[derive(Clone, Copy, Debug)]
pub struct KeyContext {
    /// Folders configured in the library.
    pub folder_count: usize,
    /// Tracks in the playlist.
    pub track_count: usize,
    /// The track that is playing.
    pub track_index: usize,
}

/// The interface state that keys change.
#[derive(Clone, Debug)]
pub struct Controls {
    pub show_keybinds: bool,
    pub show_note: bool,
    pub show_playlist: bool,
    pub modal_tab: ModalTab,
    pub folder_cursor: usize,
    pub is_adding_folder: bool,
    /// `D` asked to delete the folder under the cursor; `Y` confirms it,
    /// `N` or `Esc` keeps it.
    pub confirming_delete: bool,
    pub folder_input: String,
    pub playlist_cursor: usize,
    pub render_past: bool,
    pub should_exit: bool,
    pub color_theme: ThemePreset,
    pub lang: Language,
    pub spectrum_style: Style,
}

/// `Controls` as plain values.
pub struct ControlsView {
    pub show_keybinds: bool,
    pub show_note: bool,
    pub show_playlist: bool,
    pub modal_tab: ModalTab,
    pub folder_cursor: usize,
    pub is_adding_folder: bool,
    pub confirming_delete: bool,
    pub folder_input: Seq<char>,
    pub playlist_cursor: usize,
    pub render_past: bool,
    pub should_exit: bool,
    pub color_theme: ThemePreset,
    pub lang: Language,
    pub spectrum_style: Style,
}

impl View for Controls {
    type V = ControlsView;

    open spec fn view(&self) -> ControlsView {
        ControlsView {
            show_keybinds: self.show_keybinds,
            show_note: self.show_note,
            show_playlist: self.show_playlist,
            modal_tab: self.modal_tab,
            folder_cursor: self.folder_cursor,
            is_adding_folder: self.is_adding_folder,
            confirming_delete: self.confirming_delete,
            folder_input: self.folder_input@,
            playlist_cursor: self.playlist_cursor,
            render_past: self.render_past,
            should_exit: self.should_exit,
            color_theme: self.color_theme,
            lang: self.lang,
            spectrum_style: self.spectrum_style,
        }
    }
}

/// Whether `key` is one of the given letters.
pub open spec fn is_char(key: Key, a: char, b: char) -> bool {
    key == Key::Char(a) || key == Key::Char(b)
}

/// One step up a list of `n` entries, wrapping from the top to the bottom.
pub open spec fn cursor_up(cursor: usize, n: usize) -> usize {
    if n == 0 {
        cursor
    } else if cursor == 0 {
        (n - 1) as usize
    } else {
        (cursor - 1) as usize
    }
}

/// One step down a list of `n` entries, wrapping from the bottom to the top.
pub open spec fn cursor_down(cursor: usize, n: usize) -> usize {
    if n == 0 { cursor } else { ((cursor + 1) % (n as int)) as usize }
}

/// One page up a list of `n` entries, stopping at the top.
pub open spec fn page_up(cursor: usize, n: usize) -> usize {
    if n == 0 {
        cursor
    } else if cursor >= config::MODAL_PAGE_ROWS {
        (cursor - config::MODAL_PAGE_ROWS) as usize
    } else {
        0
    }
}

/// One page down a list of `n` entries, stopping at the bottom.
pub open spec fn page_down(cursor: usize, n: usize) -> usize {
    if n == 0 {
        cursor
    } else if cursor + config::MODAL_PAGE_ROWS < n {
        (cursor + config::MODAL_PAGE_ROWS) as usize
    } else {
        (n - 1) as usize
    }
}

/// A key that moves a page back: `←` or `PgUp`.
pub open spec fn is_page_back(key: Key) -> bool {
    key == Key::Left || key == Key::PageUp
}

/// A key that moves a page on: `→` or `PgDn`.
pub open spec fn is_page_on(key: Key) -> bool {
    key == Key::Right || key == Key::PageDown
}

/// A key typed while a folder path is being entered.
pub open spec fn typing_step(s: ControlsView, key: Key) -> (ControlsView, ActionView) {
    match key {
        Key::Esc => (ControlsView { is_adding_folder: false, folder_input: Seq::empty(), ..s }, ActionView::Nothing),
        Key::Enter => (
            ControlsView { is_adding_folder: false, folder_input: Seq::empty(), ..s },
            if spec_trim(s.folder_input).len() > 0 {
                ActionView::AddFolder(spec_trim(s.folder_input))
            } else {
                ActionView::Nothing
            },
        ),
        Key::Backspace => (
            ControlsView {
                folder_input: if s.folder_input.len() > 0 { s.folder_input.drop_last() } else { s.folder_input },
                ..s
            },
            ActionView::Nothing,
        ),
        Key::Char(c) => (ControlsView { folder_input: s.folder_input.push(c), ..s }, ActionView::Nothing),
        _ => (s, ActionView::Nothing),
    }
}

/// A key pressed on the folders tab of the dialog.
pub open spec fn folders_tab_step(s: ControlsView, key: Key, ctx: KeyContext) -> (ControlsView, ActionView) {
    if key == Key::Esc || is_char(key, 'l', 'L') {
        (ControlsView { show_playlist: false, ..s }, ActionView::Nothing)
    } else if is_char(key, 't', 'T') || key == Key::Char('1') {
        (ControlsView { modal_tab: ModalTab::Tracks, ..s }, ActionView::Nothing)
    } else if is_char(key, 'a', 'A') {
        (ControlsView { folder_input: Seq::empty(), is_adding_folder: true, ..s }, ActionView::Nothing)
    } else if is_char(key, 'd', 'D') {
        (ControlsView { confirming_delete: ctx.folder_count > 0, ..s }, ActionView::Nothing)
    } else if is_char(key, 'r', 'R') {
        (s, ActionView::Rescan)
    } else if key == Key::Up || is_char(key, 'k', 'K') {
        (ControlsView { folder_cursor: cursor_up(s.folder_cursor, ctx.folder_count), ..s }, ActionView::Nothing)
    } else if key == Key::Down || is_char(key, 'j', 'J') {
        (ControlsView { folder_cursor: cursor_down(s.folder_cursor, ctx.folder_count), ..s }, ActionView::Nothing)
    } else if is_page_back(key) {
        (ControlsView { folder_cursor: page_up(s.folder_cursor, ctx.folder_count), ..s }, ActionView::Nothing)
    } else if is_page_on(key) {
        (ControlsView { folder_cursor: page_down(s.folder_cursor, ctx.folder_count), ..s }, ActionView::Nothing)
    } else if is_char(key, 'i', 'I') {
        (ControlsView { lang: s.lang.following(), ..s }, ActionView::Nothing)
    } else if key == Key::Char(' ') {
        (s, ActionView::TogglePlayback)
    } else if is_char(key, 'q', 'Q') {
        (ControlsView { should_exit: true, ..s }, ActionView::Nothing)
    } else {
        (s, ActionView::Nothing)
    }
}

/// A key pressed while the deletion of the folder under the cursor waits
/// for an answer: `Y` deletes it, `N` or `Esc` keeps it, and every other key
/// is ignored until one of them comes.
pub open spec fn confirm_step(s: ControlsView, key: Key) -> (ControlsView, ActionView) {
    if is_char(key, 'y', 'Y') {
        (ControlsView { confirming_delete: false, ..s }, ActionView::RemoveFolder(s.folder_cursor))
    } else if key == Key::Esc || is_char(key, 'n', 'N') {
        (ControlsView { confirming_delete: false, ..s }, ActionView::Nothing)
    } else {
        (s, ActionView::Nothing)
    }
}

/// A key pressed on the tracks tab of the dialog.
pub open spec fn tracks_tab_step(s: ControlsView, key: Key, ctx: KeyContext) -> (ControlsView, ActionView) {
    if key == Key::Esc || is_char(key, 'l', 'L') {
        (ControlsView { show_playlist: false, ..s }, ActionView::Nothing)
    } else if is_char(key, 'f', 'F') || key == Key::Char('2') {
        (ControlsView { modal_tab: ModalTab::Folders, ..s }, ActionView::Nothing)
    } else if key == Key::Up || is_char(key, 'k', 'K') {
        (ControlsView { playlist_cursor: cursor_up(s.playlist_cursor, ctx.track_count), ..s }, ActionView::Nothing)
    } else if key == Key::Down || is_char(key, 'j', 'J') {
        (ControlsView { playlist_cursor: cursor_down(s.playlist_cursor, ctx.track_count), ..s }, ActionView::Nothing)
    } else if is_page_back(key) {
        (ControlsView { playlist_cursor: page_up(s.playlist_cursor, ctx.track_count), ..s }, ActionView::Nothing)
    } else if is_page_on(key) {
        (ControlsView { playlist_cursor: page_down(s.playlist_cursor, ctx.track_count), ..s }, ActionView::Nothing)
    } else if key == Key::Enter {
        (ControlsView { show_playlist: false, ..s }, ActionView::SwitchTrack(s.playlist_cursor))
    } else if is_char(key, 'i', 'I') {
        (ControlsView { lang: s.lang.following(), ..s }, ActionView::Nothing)
    } else if key == Key::Char(' ') {
        (s, ActionView::TogglePlayback)
    } else if is_char(key, 'q', 'Q') {
        (ControlsView { should_exit: true, ..s }, ActionView::Nothing)
    } else {
        (s, ActionView::Nothing)
    }
}

/// A key pressed with no dialog open.
pub open spec fn main_step(s: ControlsView, key: Key, ctx: KeyContext) -> (ControlsView, ActionView) {
    if is_char(key, 'q', 'Q') || key == Key::Esc {
        (ControlsView { should_exit: true, ..s }, ActionView::Nothing)
    } else if is_char(key, 'f', 'F') {
        (
            ControlsView {
                modal_tab: ModalTab::Folders,
                folder_cursor: 0,
                confirming_delete: false,
                show_playlist: true,
                ..s
            },
            ActionView::Nothing,
        )
    } else if is_char(key, 'l', 'L') {
        (
            ControlsView {
                modal_tab: ModalTab::Tracks,
                playlist_cursor: ctx.track_index,
                show_playlist: true,
                ..s
            },
            ActionView::Nothing,
        )
    } else if is_char(key, 'h', 'H') {
        (ControlsView { show_keybinds: !s.show_keybinds, ..s }, ActionView::Nothing)
    } else if is_char(key, 's', 'S') {
        (
            ControlsView { spectrum_style: Style::at((s.spectrum_style.index() + 1) % 5), ..s },
            ActionView::Nothing,
        )
    } else if is_char(key, 'c', 'C') {
        (
            ControlsView { color_theme: ThemePreset::at((s.color_theme.index() + 1) % 7), ..s },
            ActionView::Nothing,
        )
    } else if is_char(key, 'i', 'I') {
        (ControlsView { lang: s.lang.following(), ..s }, ActionView::Nothing)
    } else if is_char(key, 'n', 'N') {
        (ControlsView { show_note: !s.show_note, ..s }, ActionView::Nothing)
    } else if key == Key::Char('[') || is_char(key, 'p', 'P') {
        (s, ActionView::PrevTrack)
    } else if key == Key::Char(']') || is_char(key, 'o', 'O') {
        (s, ActionView::NextTrack)
    } else if key == Key::Char(' ') {
        (s, ActionView::TogglePlayback)
    } else if key == Key::Left {
        (ControlsView { render_past: true, ..s }, ActionView::SeekBy((-config::SEEK_STEP_MS) as i64))
    } else if key == Key::Right {
        (ControlsView { render_past: true, ..s }, ActionView::SeekBy(config::SEEK_STEP_MS))
    } else {
        (s, ActionView::Nothing)
    }
}

/// What a key press does: typing into the path box takes every key while it
/// is open, then a pending deletion waits for its answer, then the open tab
/// of the dialog decides, then the main screen.
pub open spec fn key_step(s: ControlsView, key: Key, ctx: KeyContext) -> (ControlsView, ActionView) {
    if s.show_playlist {
        if s.is_adding_folder {
            typing_step(s, key)
        } else if s.confirming_delete {
            confirm_step(s, key)
        } else {
            match s.modal_tab {
                ModalTab::Folders => folders_tab_step(s, key, ctx),
                ModalTab::Tracks => tracks_tab_step(s, key, ctx),
            }
        }
    } else {
        main_step(s, key, ctx)
    }
}

/// `String::pop`: removes and returns the last character.
#[verifier::external_body]
fn pop_char(s: &mut String) -> (r: Option<char>)
    ensures
        old(s)@.len() == 0 ==> r is None && final(s)@ == old(s)@,
        old(s)@.len() > 0 ==> r == Some(old(s)@.last()) && final(s)@ == old(s)@.drop_last(),
{
    s.pop()
}

fn up(cursor: usize, n: usize) -> (r: usize)
    ensures
        r == cursor_up(cursor, n),
{
    if n == 0 {
        cursor
    } else if cursor == 0 {
        n - 1
    } else {
        cursor - 1
    }
}

fn page_back(cursor: usize, n: usize) -> (r: usize)
    ensures
        r == page_up(cursor, n),
{
    if n == 0 {
        cursor
    } else if cursor >= config::MODAL_PAGE_ROWS {
        cursor - config::MODAL_PAGE_ROWS
    } else {
        0
    }
}

fn page_on(cursor: usize, n: usize) -> (r: usize)
    ensures
        r == page_down(cursor, n),
{
    if n == 0 {
        cursor
    } else if cursor < n && n - cursor > config::MODAL_PAGE_ROWS {
        cursor + config::MODAL_PAGE_ROWS
    } else {
        n - 1
    }
}

fn down(cursor: usize, n: usize) -> (r: usize)
    requires
        n > 0 ==> cursor < usize::MAX,
    ensures
        r == cursor_down(cursor, n),
{
    if n == 0 {
        cursor
    } else {
        (cursor + 1) % n
    }
}

impl Controls {
    /// The state the player starts in.
    pub fn new(track_index: usize) -> (c: Self)
        ensures
            c@.playlist_cursor == track_index,
            c@.show_keybinds == config::SHOW_KEYBINDS,
            c@.show_note == config::SHOW_NOTE,
            !c@.show_playlist,
            c@.modal_tab == ModalTab::Tracks,
            c@.folder_cursor == 0,
            !c@.is_adding_folder,
            !c@.confirming_delete,
            c@.folder_input.len() == 0,
            c@.render_past == config::RENDER_PAST_ON_START,
            !c@.should_exit,
            c@.color_theme == ThemePreset::Emerald,
            c@.lang == Language::Vietnamese,
            c@.spectrum_style == (if config::SHOW_SPECTRUM { Style::Curve } else { Style::Off }),
    {
        Controls {
            show_keybinds: config::SHOW_KEYBINDS,
            show_note: config::SHOW_NOTE,
            show_playlist: false,
            modal_tab: ModalTab::Tracks,
            folder_cursor: 0,
            is_adding_folder: false,
            confirming_delete: false,
            folder_input: String::new(),
            playlist_cursor: track_index,
            render_past: config::RENDER_PAST_ON_START,
            should_exit: false,
            color_theme: ThemePreset::Emerald,
            lang: Language::Vietnamese,
            spectrum_style: if config::SHOW_SPECTRUM { Style::Curve } else { Style::Off },
        }
    }

    fn typing(&mut self, key: Key) -> (a: Action)
        ensures
            (final(self)@, a@) == typing_step(old(self)@, key),
    {
        match key {
            Key::Esc => {
                self.is_adding_folder = false;
                self.folder_input = String::new();
                Action::Nothing
            },
            Key::Enter => {
                let chars = chars_of(self.folder_input.as_str());
                let path = trim_chars(&chars);
                self.is_adding_folder = false;
                self.folder_input = String::new();
                if path.len() > 0 {
                    Action::AddFolder(string_of(&path))
                } else {
                    Action::Nothing
                }
            },
            Key::Backspace => {
                let _ = pop_char(&mut self.folder_input);
                Action::Nothing
            },
            Key::Char(c) => {
                push_char(&mut self.folder_input, c);
                Action::Nothing
            },
            _ => Action::Nothing,
        }
    }

    fn folders_tab(&mut self, key: Key, ctx: &KeyContext) -> (a: Action)
        requires
            ctx.folder_count > 0 ==> old(self).folder_cursor < usize::MAX,
        ensures
            (final(self)@, a@) == folders_tab_step(old(self)@, key, *ctx),
    {
        match key {
            Key::Esc | Key::Char('l') | Key::Char('L') => {
                self.show_playlist = false;
                Action::Nothing
            },
            Key::Char('t') | Key::Char('T') | Key::Char('1') => {
                self.modal_tab = ModalTab::Tracks;
                Action::Nothing
            },
            Key::Char('a') | Key::Char('A') => {
                self.folder_input = String::new();
                self.is_adding_folder = true;
                Action::Nothing
            },
            Key::Char('d') | Key::Char('D') => {
                self.confirming_delete = ctx.folder_count > 0;
                Action::Nothing
            },
            Key::Char('r') | Key::Char('R') => Action::Rescan,
            Key::Up | Key::Char('k') | Key::Char('K') => {
                self.folder_cursor = up(self.folder_cursor, ctx.folder_count);
                Action::Nothing
            },
            Key::Down | Key::Char('j') | Key::Char('J') => {
                self.folder_cursor = down(self.folder_cursor, ctx.folder_count);
                Action::Nothing
            },
            Key::Left | Key::PageUp => {
                self.folder_cursor = page_back(self.folder_cursor, ctx.folder_count);
                Action::Nothing
            },
            Key::Right | Key::PageDown => {
                self.folder_cursor = page_on(self.folder_cursor, ctx.folder_count);
                Action::Nothing
            },
            Key::Char('i') | Key::Char('I') => {
                self.lang = self.lang.next();
                Action::Nothing
            },
            Key::Char(' ') => Action::TogglePlayback,
            Key::Char('q') | Key::Char('Q') => {
                self.should_exit = true;
                Action::Nothing
            },
            _ => Action::Nothing,
        }
    }

    fn confirming(&mut self, key: Key) -> (a: Action)
        ensures
            (final(self)@, a@) == confirm_step(old(self)@, key),
    {
        match key {
            Key::Char('y') | Key::Char('Y') => {
                self.confirming_delete = false;
                Action::RemoveFolder(self.folder_cursor)
            },
            Key::Esc | Key::Char('n') | Key::Char('N') => {
                self.confirming_delete = false;
                Action::Nothing
            },
            _ => Action::Nothing,
        }
    }

    fn tracks_tab(&mut self, key: Key, ctx: &KeyContext) -> (a: Action)
        requires
            ctx.track_count > 0 ==> old(self).playlist_cursor < usize::MAX,
        ensures
            (final(self)@, a@) == tracks_tab_step(old(self)@, key, *ctx),
    {
        match key {
            Key::Esc | Key::Char('l') | Key::Char('L') => {
                self.show_playlist = false;
                Action::Nothing
            },
            Key::Char('f') | Key::Char('F') | Key::Char('2') => {
                self.modal_tab = ModalTab::Folders;
                Action::Nothing
            },
            Key::Up | Key::Char('k') | Key::Char('K') => {
                self.playlist_cursor = up(self.playlist_cursor, ctx.track_count);
                Action::Nothing
            },
            Key::Down | Key::Char('j') | Key::Char('J') => {
                self.playlist_cursor = down(self.playlist_cursor, ctx.track_count);
                Action::Nothing
            },
            Key::Left | Key::PageUp => {
                self.playlist_cursor = page_back(self.playlist_cursor, ctx.track_count);
                Action::Nothing
            },
            Key::Right | Key::PageDown => {
                self.playlist_cursor = page_on(self.playlist_cursor, ctx.track_count);
                Action::Nothing
            },
            Key::Enter => {
                self.show_playlist = false;
                Action::SwitchTrack(self.playlist_cursor)
            },
            Key::Char('i') | Key::Char('I') => {
                self.lang = self.lang.next();
                Action::Nothing
            },
            Key::Char(' ') => Action::TogglePlayback,
            Key::Char('q') | Key::Char('Q') => {
                self.should_exit = true;
                Action::Nothing
            },
            _ => Action::Nothing,
        }
    }

    #[verifier::rlimit(40)]
    fn main_screen(&mut self, key: Key, ctx: &KeyContext) -> (a: Action)
        ensures
            (final(self)@, a@) == main_step(old(self)@, key, *ctx),
    {
        match key {
            Key::Char('q') | Key::Char('Q') | Key::Esc => {
                self.should_exit = true;
                Action::Nothing
            },
            Key::Char('f') | Key::Char('F') => {
                self.modal_tab = ModalTab::Folders;
                self.folder_cursor = 0;
                self.confirming_delete = false;
                self.show_playlist = true;
                Action::Nothing
            },
            Key::Char('l') | Key::Char('L') => {
                self.modal_tab = ModalTab::Tracks;
                self.playlist_cursor = ctx.track_index;
                self.show_playlist = true;
                Action::Nothing
            },
            Key::Char('h') | Key::Char('H') => {
                self.show_keybinds = !self.show_keybinds;
                Action::Nothing
            },
            Key::Char('s') | Key::Char('S') => {
                self.spectrum_style = self.spectrum_style.next();
                Action::Nothing
            },
            Key::Char('c') | Key::Char('C') => {
                let next = self.color_theme.next();
                proof {
                    crate::color::lemma_index_at(next);
                }
                self.color_theme = next;
                Action::Nothing
            },
            Key::Char('i') | Key::Char('I') => {
                self.lang = self.lang.next();
                Action::Nothing
            },
            Key::Char('n') | Key::Char('N') => {
                self.show_note = !self.show_note;
                Action::Nothing
            },
            Key::Char('[') | Key::Char('p') | Key::Char('P') => Action::PrevTrack,
            Key::Char(']') | Key::Char('o') | Key::Char('O') => Action::NextTrack,
            Key::Char(' ') => Action::TogglePlayback,
            Key::Left => {
                self.render_past = true;
                Action::SeekBy(-config::SEEK_STEP_MS)
            },
            Key::Right => {
                self.render_past = true;
                Action::SeekBy(config::SEEK_STEP_MS)
            },
            _ => Action::Nothing,
        }
    }

    /// Decide what `key` does. Typing into the path box takes every key while
    /// the box is open, and a pending deletion takes every key until it is
    /// answered; otherwise the open tab of the dialog decides, or the main
    /// screen when the dialog is closed.
    pub fn handle_key(&mut self, key: Key, ctx: &KeyContext) -> (a: Action)
        requires
            ctx.folder_count > 0 ==> old(self).folder_cursor < usize::MAX,
            ctx.track_count > 0 ==> old(self).playlist_cursor < usize::MAX,
        ensures
            (final(self)@, a@) == key_step(old(self)@, key, *ctx),
    {
        if self.show_playlist {
            if self.is_adding_folder {
                self.typing(key)
            } else if self.confirming_delete {
                self.confirming(key)
            } else {
                match self.modal_tab {
                    ModalTab::Folders => self.folders_tab(key, ctx),
                    ModalTab::Tracks => self.tracks_tab(key, ctx),
                }
            }
        } else {
            self.main_screen(key, ctx)
        }
    }

    /// A track row of the dialog was clicked: the cursor moves to it and
    /// the dialog closes, while the track itself starts playing.
    pub fn track_clicked(&mut self, index: usize)
        ensures
            final(self)@ == (ControlsView { playlist_cursor: index, show_playlist: false, ..old(self)@ }),
    {
        self.playlist_cursor = index;
        self.show_playlist = false;
    }

    /// A tab of the dialog was clicked; a pending deletion is dropped.
    pub fn tab_clicked(&mut self, tab: ModalTab)
        ensures
            final(self)@ == (ControlsView { modal_tab: tab, confirming_delete: false, ..old(self)@ }),
    {
        self.modal_tab = tab;
        self.confirming_delete = false;
    }

    /// The dialog's close button was clicked; a pending deletion is dropped.
    pub fn close_clicked(&mut self)
        ensures
            final(self)@ == (ControlsView { show_playlist: false, confirming_delete: false, ..old(self)@ }),
    {
        self.show_playlist = false;
        self.confirming_delete = false;
    }

    /// After the folder list changed, keep the folder cursor on an entry.
    pub fn folders_changed(&mut self, remaining: usize)
        ensures
            final(self)@ == (ControlsView {
                folder_cursor: if old(self).folder_cursor >= remaining && remaining > 0 {
                    (remaining - 1) as usize
                } else {
                    old(self).folder_cursor
                },
                ..old(self)@
            }),
    {
        if self.folder_cursor >= remaining && remaining > 0 {
            self.folder_cursor = remaining - 1;
        }
    }
}

/// Every cursor points at an entry of its list, when the list has any.
pub open spec fn cursors_in_range(s: ControlsView, ctx: KeyContext) -> bool {
    &&& (ctx.track_count > 0 ==> s.playlist_cursor < ctx.track_count)
    &&& (ctx.folder_count > 0 ==> s.folder_cursor < ctx.folder_count)
}

/// No key moves a cursor off its list: with the playing track inside the
/// playlist, cursors that start on an entry stay on one.
pub proof fn lemma_cursors_stay_in_range(s: ControlsView, key: Key, ctx: KeyContext)
    requires
        cursors_in_range(s, ctx),
        ctx.track_count > 0 ==> ctx.track_index < ctx.track_count,
    ensures
        cursors_in_range(key_step(s, key, ctx).0, ctx),
{
    if ctx.track_count > 0 {
        vstd::arithmetic::div_mod::lemma_mod_bound(s.playlist_cursor + 1, ctx.track_count as int);
    }
    if ctx.folder_count > 0 {
        vstd::arithmetic::div_mod::lemma_mod_bound(s.folder_cursor + 1, ctx.folder_count as int);
    }
}

/// `Esc` backs out one level and nothing more: it cancels the path being
/// typed or the deletion waiting for an answer, or closes the dialog, or, on
/// the main screen, quits. It never asks the player or the library to do
/// anything.
pub proof fn lemma_escape_backs_out_one_level(s: ControlsView, ctx: KeyContext)
    ensures
        key_step(s, Key::Esc, ctx).1 == ActionView::Nothing,
        s.show_playlist && s.is_adding_folder ==> {
            let t = key_step(s, Key::Esc, ctx).0;
            !t.is_adding_folder && t.show_playlist && t.should_exit == s.should_exit
        },
        s.show_playlist && !s.is_adding_folder && s.confirming_delete ==> {
            let t = key_step(s, Key::Esc, ctx).0;
            !t.confirming_delete && t.show_playlist && t.should_exit == s.should_exit
        },
        s.show_playlist && !s.is_adding_folder && !s.confirming_delete ==> {
            let t = key_step(s, Key::Esc, ctx).0;
            !t.show_playlist && t.should_exit == s.should_exit
        },
        !s.show_playlist ==> key_step(s, Key::Esc, ctx).0.should_exit,
{
}

/// While a folder path is being typed, keys only edit it: nothing else in
/// the state changes, and the only action is adding the typed folder when
/// `Enter` confirms a path that is not blank.
pub proof fn lemma_typing_only_edits_the_path(s: ControlsView, key: Key, ctx: KeyContext)
    requires
        s.show_playlist,
        s.is_adding_folder,
    ensures
        ({
            let (t, a) = key_step(s, key, ctx);
            &&& t.show_playlist
            &&& t.should_exit == s.should_exit
            &&& t.modal_tab == s.modal_tab
            &&& t.folder_cursor == s.folder_cursor
            &&& t.playlist_cursor == s.playlist_cursor
            &&& t.lang == s.lang
            &&& (a == ActionView::Nothing || (key == Key::Enter && a == ActionView::AddFolder(
                spec_trim(s.folder_input),
            ) && spec_trim(s.folder_input).len() > 0))
        }),
{
}

/// A folder is deleted only on a confirmed request: the one key that asks
/// the library to remove a folder is `Y` while a deletion waits for its
/// answer, and it names the folder under the cursor.
pub proof fn lemma_delete_needs_yes(s: ControlsView, key: Key, ctx: KeyContext)
    ensures
        key_step(s, key, ctx).1 is RemoveFolder ==> {
            &&& s.show_playlist
            &&& !s.is_adding_folder
            &&& s.confirming_delete
            &&& is_char(key, 'y', 'Y')
            &&& key_step(s, key, ctx).1 == ActionView::RemoveFolder(s.folder_cursor)
            &&& !key_step(s, key, ctx).0.confirming_delete
        },
{
}

/// On the folders tab with a folder listed, `D` deletes nothing by itself:
/// `Y` after it deletes the folder under the cursor, while `N` or `Esc`
/// after it leaves every folder in place and the dialog as it was.
pub proof fn lemma_delete_asks_first(s: ControlsView, ctx: KeyContext, answer: Key)
    requires
        s.show_playlist,
        !s.is_adding_folder,
        !s.confirming_delete,
        s.modal_tab == ModalTab::Folders,
        ctx.folder_count > 0,
    ensures
        ({
            let (t, a) = key_step(s, Key::Char('d'), ctx);
            &&& a == ActionView::Nothing
            &&& t.confirming_delete
            &&& t.folder_cursor == s.folder_cursor
            &&& (is_char(answer, 'y', 'Y') ==> key_step(t, answer, ctx).1 == ActionView::RemoveFolder(
                s.folder_cursor,
            ))
            &&& (answer == Key::Esc || is_char(answer, 'n', 'N') ==> key_step(t, answer, ctx) == (
                s,
                ActionView::Nothing,
            ))
        }),
{
}

/// Paging moves the cursor a whole page at a time without leaving the list:
/// back a page then on a page returns to the same row whenever a whole page
/// lies on either side, and a page key never moves the cursor more than a
/// page.
pub proof fn lemma_paging(cursor: usize, n: usize)
    requires
        cursor < n,
    ensures
        page_up(cursor, n) < n,
        page_down(cursor, n) < n,
        page_up(cursor, n) <= cursor <= page_down(cursor, n),
        cursor - page_up(cursor, n) <= config::MODAL_PAGE_ROWS,
        page_down(cursor, n) - cursor <= config::MODAL_PAGE_ROWS,
        cursor + config::MODAL_PAGE_ROWS < n ==> page_up(page_down(cursor, n), n) == cursor,
        cursor >= config::MODAL_PAGE_ROWS ==> page_down(page_up(cursor, n), n) == cursor,
{
}

/// On the main screen (no dialog open) each key does what the key table
/// says: `]`/`o` next track, `[`/`p` previous track, space play/pause,
/// `←`/`→` seek back/forward by `SEEK_STEP_MS` (and show the past lines),
/// `q`/`Esc` quit, `l` open the track list on the playing track, `f` open the
/// folder list at its top, `h` the key guide, `n` the note readout, `c` the
/// next colour theme, `s` the next spectrum style, `i` the next language.
/// Only the keys that name an action ask for one.
pub proof fn lemma_main_screen_keys(s: ControlsView, ctx: KeyContext, c: char)
    requires
        !s.show_playlist,
    ensures
        key_step(s, Key::Char(']'), ctx).1 == ActionView::NextTrack,
        key_step(s, Key::Char('o'), ctx).1 == ActionView::NextTrack,
        key_step(s, Key::Char('O'), ctx).1 == ActionView::NextTrack,
        key_step(s, Key::Char('['), ctx).1 == ActionView::PrevTrack,
        key_step(s, Key::Char('p'), ctx).1 == ActionView::PrevTrack,
        key_step(s, Key::Char('P'), ctx).1 == ActionView::PrevTrack,
        key_step(s, Key::Char(' '), ctx).1 == ActionView::TogglePlayback,
        key_step(s, Key::Left, ctx).1 == ActionView::SeekBy(-config::SEEK_STEP_MS as i64),
        key_step(s, Key::Right, ctx).1 == ActionView::SeekBy(config::SEEK_STEP_MS),
        key_step(s, Key::Left, ctx).0.render_past,
        key_step(s, Key::Right, ctx).0.render_past,
        key_step(s, Key::Char('q'), ctx).0.should_exit,
        key_step(s, Key::Char('Q'), ctx).0.should_exit,
        key_step(s, Key::Esc, ctx).0.should_exit,
        ({
            let t = key_step(s, Key::Char('l'), ctx).0;
            t.show_playlist && t.modal_tab == ModalTab::Tracks && t.playlist_cursor == ctx.track_index
        }),
        ({
            let t = key_step(s, Key::Char('f'), ctx).0;
            t.show_playlist && t.modal_tab == ModalTab::Folders && t.folder_cursor == 0 && !t.confirming_delete
        }),
        key_step(s, Key::Char('h'), ctx).0.show_keybinds == !s.show_keybinds,
        key_step(s, Key::Char('n'), ctx).0.show_note == !s.show_note,
        key_step(s, Key::Char('c'), ctx).0.color_theme.index() == (s.color_theme.index() + 1) % 7,
        key_step(s, Key::Char('s'), ctx).0.spectrum_style.index() == (s.spectrum_style.index() + 1) % 5,
        key_step(s, Key::Char('i'), ctx).0.lang == s.lang.following(),
        !(c == ']' || c == 'o' || c == 'O' || c == '[' || c == 'p' || c == 'P' || c == ' ')
            ==> key_step(s, Key::Char(c), ctx).1 == ActionView::Nothing,
        key_step(s, Key::Up, ctx) == (s, ActionView::Nothing),
        key_step(s, Key::Enter, ctx) == (s, ActionView::Nothing),
{
    crate::color::lemma_index_at(ThemePreset::at((s.color_theme.index() + 1) % 7));
}

/// In the track list each key does what the key table says: `Enter` plays
/// the track under the cursor and closes the list, `↑`/`↓` move the cursor
/// one row with wrap-around, `Esc`/`l` close the list, `f`/`2` switch to the
/// folders, space play/pause, `q` quit.
pub proof fn lemma_track_list_keys(s: ControlsView, ctx: KeyContext)
    requires
        s.show_playlist,
        !s.is_adding_folder,
        !s.confirming_delete,
        s.modal_tab == ModalTab::Tracks,
        ctx.track_count > 0,
        s.playlist_cursor < ctx.track_count,
    ensures
        key_step(s, Key::Enter, ctx) == (
            ControlsView { show_playlist: false, ..s },
            ActionView::SwitchTrack(s.playlist_cursor),
        ),
        key_step(s, Key::Down, ctx).0.playlist_cursor == if s.playlist_cursor + 1 == ctx.track_count {
            0
        } else {
            s.playlist_cursor + 1
        },
        key_step(s, Key::Up, ctx).0.playlist_cursor == if s.playlist_cursor == 0 {
            ctx.track_count - 1
        } else {
            s.playlist_cursor - 1
        },
        !key_step(s, Key::Esc, ctx).0.show_playlist,
        !key_step(s, Key::Char('l'), ctx).0.show_playlist,
        key_step(s, Key::Char('f'), ctx).0.modal_tab == ModalTab::Folders,
        key_step(s, Key::Char('2'), ctx).0.modal_tab == ModalTab::Folders,
        key_step(s, Key::Char(' '), ctx).1 == ActionView::TogglePlayback,
        key_step(s, Key::Char('q'), ctx).0.should_exit,
        key_step(s, Key::Esc, ctx).1 == ActionView::Nothing,
{
    if s.playlist_cursor + 1 < ctx.track_count {
        vstd::arithmetic::div_mod::lemma_small_mod((s.playlist_cursor + 1) as nat, ctx.track_count as nat);
    } else {
        vstd::arithmetic::div_mod::lemma_mod_self_0(ctx.track_count as int);
    }
}

/// In the folder list each key does what the key table says: `a` opens the
/// path box, `r` rescans, `d` asks before deleting, `t`/`1` switch to the
/// tracks, `Esc`/`l` close the list; no key but a confirmed `y` deletes.
pub proof fn lemma_folder_list_keys(s: ControlsView, ctx: KeyContext)
    requires
        s.show_playlist,
        !s.is_adding_folder,
        !s.confirming_delete,
        s.modal_tab == ModalTab::Folders,
    ensures
        ({
            let t = key_step(s, Key::Char('a'), ctx).0;
            t.is_adding_folder && t.folder_input.len() == 0 && t.show_playlist
        }),
        key_step(s, Key::Char('r'), ctx).1 == ActionView::Rescan,
        key_step(s, Key::Char('R'), ctx).1 == ActionView::Rescan,
        key_step(s, Key::Char('d'), ctx).1 == ActionView::Nothing,
        key_step(s, Key::Char('t'), ctx).0.modal_tab == ModalTab::Tracks,
        key_step(s, Key::Char('1'), ctx).0.modal_tab == ModalTab::Tracks,
        !key_step(s, Key::Esc, ctx).0.show_playlist,
        !key_step(s, Key::Char('l'), ctx).0.show_playlist,
        key_step(s, Key::Char(' '), ctx).1 == ActionView::TogglePlayback,
{
}

} // verus!
