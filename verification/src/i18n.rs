//! Interface languages and their strings.
//!
//! Each language is a table of phrases. The tables are plain data in the
//! library: `Language::text` looks a phrase up, and `Language::config`
//! gathers a whole language into a `LocaleConfig`.

use vstd::prelude::*;

use crate::text::{spec_str_to_uppercase, str_to_uppercase, string_from};

verus! {

/// Every phrase the interface shows in the user's language.
#[derive(Clone, Copy, Debug, PartialEq, Eq, Structural)]
pub enum Phrase {
    Code,
    Name,
    Play,
    Seek,
    Track,
    List,
    Folders,
    Spectrum,
    Theme,
    Note,
    Lang,
    Quit,
    PlaylistTitle,
    FoldersTitle,
    Close,
    FooterHints,
    FolderFooterHints,
    ConfirmDeleteHints,
    LiveBadge,
    TracksTab,
    FoldersTab,
    AddFolderPrompt,
    AddFolderHints,
    FolderEmpty,
    FolderCount,
    ThNo,
    ThTitle,
    ThArtist,
    ThStatus,
    ThFolder,
    ThCount,
    ThAction,
    HasLyrics,
    NoLyricsShort,
    BtnAddFolder,
    BtnRescan,
    BtnDelete,
    NoLyrics,
    NoLyricsHints,
    Live,
    Paused,
}

/// Supported languages. Cycled with the `I` key.
#[derive(Clone, Copy, Debug, PartialEq, Eq, Structural)]
pub enum Language {
    Vietnamese,
    English,
}

impl Default for Language {
    fn default() -> (l: Self)
        ensures
            l == Language::Vietnamese,
    {
        Language::Vietnamese
    }
}

#[derive(Clone, Debug)]
pub struct HeaderLocale {
    pub play: String,
    pub seek: String,
    pub track: String,
    pub list: String,
    pub folders: String,
    pub spectrum: String,
    pub theme: String,
    pub note: String,
    pub lang: String,
    pub quit: String,
}

#[derive(Clone, Debug)]
pub struct PlaylistLocale {
    pub title: String,
    pub folders_title: String,
    pub close: String,
    pub footer_hints: String,
    pub folder_footer_hints: String,
    pub live_badge: String,
    pub tracks_tab: String,
    pub folders_tab: String,
    pub add_folder_prompt: String,
    pub add_folder_hints: String,
    pub folder_empty: String,
    pub folder_count: String,
    pub th_no: String,
    pub th_title: String,
    pub th_artist: String,
    pub th_status: String,
    pub th_folder: String,
    pub th_count: String,
    pub th_action: String,
    pub has_lyrics: String,
    pub no_lyrics_short: String,
    pub btn_add_folder: String,
    pub btn_rescan: String,
    pub btn_delete: String,
}

#[derive(Clone, Debug)]
pub struct PlayerLocale {
    pub no_lyrics: String,
    pub no_lyrics_hints: String,
}

#[derive(Clone, Debug)]
pub struct StatusLocale {
    pub live: String,
    pub paused: String,
}

#[derive(Clone, Debug)]
pub struct LocaleConfig {
    pub code: String,
    pub name: String,
    pub header: HeaderLocale,
    pub playlist: PlaylistLocale,
    pub player: PlayerLocale,
    pub status: StatusLocale,
}

impl Language {
    /// Every language, in the order the `I` key steps through them.
    pub const ALL: [Language; 2] = [Language::Vietnamese, Language::English];

    /// The phrase tables.
    pub open spec fn spec_text(self, phrase: Phrase) -> Seq<char> {
        match self {
            Language::Vietnamese => match phrase {
                Phrase::Code => "vi"@,
                Phrase::Name => "Tiếng Việt"@,
                Phrase::Play => "[Space] Phát/Dừng"@,
                Phrase::Seek => "[←][→] ±5s"@,
                Phrase::Track => "[[ ][]] Bài"@,
                Phrase::List => "[L] Danh sách"@,
                Phrase::Folders => "[F] Thư mục"@,
                Phrase::Spectrum => "Phổ"@,
                Phrase::Theme => "Màu"@,
                Phrase::Note => "Nốt nhạc"@,
                Phrase::Lang => "Ngôn ngữ"@,
                Phrase::Quit => "[Q] Thoát"@,
                Phrase::PlaylistTitle => "DANH SÁCH PHÁT"@,
                Phrase::FoldersTitle => "QUẢN LÝ THƯ MỤC NHẠC"@,
                Phrase::Close => "[✕ Đóng]"@,
                Phrase::FooterHints => "[↑/↓] Chọn  •  [Enter] Phát  •  [F] Thư mục  •  [L/Esc] Đóng"@,
                Phrase::FolderFooterHints => "[↑/↓] Chọn  •  [A] Thêm  •  [D] Xóa  •  [R] Quét lại  •  [T/Esc] Về DS"@,
                Phrase::ConfirmDeleteHints => "Xóa thư mục này?  •  [Y] Có  •  [N/Esc] Không"@,
                Phrase::LiveBadge => "ĐANG PHÁT"@,
                Phrase::TracksTab => "Bài hát"@,
                Phrase::FoldersTab => "Thư mục"@,
                Phrase::AddFolderPrompt => "Nhập đường dẫn thư mục:"@,
                Phrase::AddFolderHints => "[Enter] Xác nhận lưu vào SQLite  •  [Esc] Hủy"@,
                Phrase::FolderEmpty => "Chưa có thư mục nào."@,
                Phrase::FolderCount => "bài"@,
                Phrase::ThNo => "#"@,
                Phrase::ThTitle => "TÊN BÀI HÁT"@,
                Phrase::ThArtist => "CA SĨ"@,
                Phrase::ThStatus => "TRẠNG THÁI"@,
                Phrase::ThFolder => "ĐƯỜNG DẪN THƯ MỤC"@,
                Phrase::ThCount => "SỐ BÀI"@,
                Phrase::ThAction => "THAO TÁC"@,
                Phrase::HasLyrics => "Có lời"@,
                Phrase::NoLyricsShort => "Không lời"@,
                Phrase::BtnAddFolder => "➕ Thêm Thư Mục [A]"@,
                Phrase::BtnRescan => "🔄 Quét Lại [R]"@,
                Phrase::BtnDelete => "[Xóa]"@,
                Phrase::NoLyrics => "Bài hát này không có lời"@,
                Phrase::NoLyricsHints => "Đặt tệp .json hoặc .lrc cùng tên cạnh tệp nhạc"@,
                Phrase::Live => "● LIVE"@,
                Phrase::Paused => "⏸ TẠM DỪNG"@,
            },
            Language::English => match phrase {
                Phrase::Code => "en"@,
                Phrase::Name => "English"@,
                Phrase::Play => "[Space] Play/Pause"@,
                Phrase::Seek => "[←][→] ±5s"@,
                Phrase::Track => "[[ ][]] Track"@,
                Phrase::List => "[L] List"@,
                Phrase::Folders => "[F] Folder"@,
                Phrase::Spectrum => "Spectrum"@,
                Phrase::Theme => "Theme"@,
                Phrase::Note => "Note"@,
                Phrase::Lang => "Language"@,
                Phrase::Quit => "[Q] Quit"@,
                Phrase::PlaylistTitle => "PLAYLIST"@,
                Phrase::FoldersTitle => "MUSIC FOLDERS"@,
                Phrase::Close => "[✕ Close]"@,
                Phrase::FooterHints => "[↑/↓] Select  •  [Enter] Play  •  [F] Folders  •  [L/Esc] Close"@,
                Phrase::FolderFooterHints => "[↑/↓] Select  •  [A] Add  •  [D] Delete  •  [R] Rescan  •  [T/Esc] Back"@,
                Phrase::ConfirmDeleteHints => "Delete this folder?  •  [Y] Yes  •  [N/Esc] No"@,
                Phrase::LiveBadge => "PLAYING"@,
                Phrase::TracksTab => "Tracks"@,
                Phrase::FoldersTab => "Folders"@,
                Phrase::AddFolderPrompt => "Enter a folder path:"@,
                Phrase::AddFolderHints => "[Enter] Save to SQLite  •  [Esc] Cancel"@,
                Phrase::FolderEmpty => "No folders yet."@,
                Phrase::FolderCount => "songs"@,
                Phrase::ThNo => "#"@,
                Phrase::ThTitle => "TRACK TITLE"@,
                Phrase::ThArtist => "ARTIST"@,
                Phrase::ThStatus => "STATUS"@,
                Phrase::ThFolder => "FOLDER PATH"@,
                Phrase::ThCount => "SONGS"@,
                Phrase::ThAction => "ACTION"@,
                Phrase::HasLyrics => "Lyrics"@,
                Phrase::NoLyricsShort => "No lyrics"@,
                Phrase::BtnAddFolder => "➕ Add Folder [A]"@,
                Phrase::BtnRescan => "🔄 Rescan [R]"@,
                Phrase::BtnDelete => "[Delete]"@,
                Phrase::NoLyrics => "This track has no lyrics"@,
                Phrase::NoLyricsHints => "Put a .json or .lrc file with the same name beside the audio file"@,
                Phrase::Live => "● LIVE"@,
                Phrase::Paused => "⏸ PAUSED"@,
            },
        }
    }

    /// A phrase in this language.
    pub fn text(self, phrase: Phrase) -> (r: &'static str)
        ensures
            r@ == self.spec_text(phrase),
    {
        match self {
            Language::Vietnamese => match phrase {
                Phrase::Code => "vi",
                Phrase::Name => "Tiếng Việt",
                Phrase::Play => "[Space] Phát/Dừng",
                Phrase::Seek => "[←][→] ±5s",
                Phrase::Track => "[[ ][]] Bài",
                Phrase::List => "[L] Danh sách",
                Phrase::Folders => "[F] Thư mục",
                Phrase::Spectrum => "Phổ",
                Phrase::Theme => "Màu",
                Phrase::Note => "Nốt nhạc",
                Phrase::Lang => "Ngôn ngữ",
                Phrase::Quit => "[Q] Thoát",
                Phrase::PlaylistTitle => "DANH SÁCH PHÁT",
                Phrase::FoldersTitle => "QUẢN LÝ THƯ MỤC NHẠC",
                Phrase::Close => "[✕ Đóng]",
                Phrase::FooterHints => "[↑/↓] Chọn  •  [Enter] Phát  •  [F] Thư mục  •  [L/Esc] Đóng",
                Phrase::FolderFooterHints => "[↑/↓] Chọn  •  [A] Thêm  •  [D] Xóa  •  [R] Quét lại  •  [T/Esc] Về DS",
                Phrase::ConfirmDeleteHints => "Xóa thư mục này?  •  [Y] Có  •  [N/Esc] Không",
                Phrase::LiveBadge => "ĐANG PHÁT",
                Phrase::TracksTab => "Bài hát",
                Phrase::FoldersTab => "Thư mục",
                Phrase::AddFolderPrompt => "Nhập đường dẫn thư mục:",
                Phrase::AddFolderHints => "[Enter] Xác nhận lưu vào SQLite  •  [Esc] Hủy",
                Phrase::FolderEmpty => "Chưa có thư mục nào.",
                Phrase::FolderCount => "bài",
                Phrase::ThNo => "#",
                Phrase::ThTitle => "TÊN BÀI HÁT",
                Phrase::ThArtist => "CA SĨ",
                Phrase::ThStatus => "TRẠNG THÁI",
                Phrase::ThFolder => "ĐƯỜNG DẪN THƯ MỤC",
                Phrase::ThCount => "SỐ BÀI",
                Phrase::ThAction => "THAO TÁC",
                Phrase::HasLyrics => "Có lời",
                Phrase::NoLyricsShort => "Không lời",
                Phrase::BtnAddFolder => "➕ Thêm Thư Mục [A]",
                Phrase::BtnRescan => "🔄 Quét Lại [R]",
                Phrase::BtnDelete => "[Xóa]",
                Phrase::NoLyrics => "Bài hát này không có lời",
                Phrase::NoLyricsHints => "Đặt tệp .json hoặc .lrc cùng tên cạnh tệp nhạc",
                Phrase::Live => "● LIVE",
                Phrase::Paused => "⏸ TẠM DỪNG",
            },
            Language::English => match phrase {
                Phrase::Code => "en",
                Phrase::Name => "English",
                Phrase::Play => "[Space] Play/Pause",
                Phrase::Seek => "[←][→] ±5s",
                Phrase::Track => "[[ ][]] Track",
                Phrase::List => "[L] List",
                Phrase::Folders => "[F] Folder",
                Phrase::Spectrum => "Spectrum",
                Phrase::Theme => "Theme",
                Phrase::Note => "Note",
                Phrase::Lang => "Language",
                Phrase::Quit => "[Q] Quit",
                Phrase::PlaylistTitle => "PLAYLIST",
                Phrase::FoldersTitle => "MUSIC FOLDERS",
                Phrase::Close => "[✕ Close]",
                Phrase::FooterHints => "[↑/↓] Select  •  [Enter] Play  •  [F] Folders  •  [L/Esc] Close",
                Phrase::FolderFooterHints => "[↑/↓] Select  •  [A] Add  •  [D] Delete  •  [R] Rescan  •  [T/Esc] Back",
                Phrase::ConfirmDeleteHints => "Delete this folder?  •  [Y] Yes  •  [N/Esc] No",
                Phrase::LiveBadge => "PLAYING",
                Phrase::TracksTab => "Tracks",
                Phrase::FoldersTab => "Folders",
                Phrase::AddFolderPrompt => "Enter a folder path:",
                Phrase::AddFolderHints => "[Enter] Save to SQLite  •  [Esc] Cancel",
                Phrase::FolderEmpty => "No folders yet.",
                Phrase::FolderCount => "songs",
                Phrase::ThNo => "#",
                Phrase::ThTitle => "TRACK TITLE",
                Phrase::ThArtist => "ARTIST",
                Phrase::ThStatus => "STATUS",
                Phrase::ThFolder => "FOLDER PATH",
                Phrase::ThCount => "SONGS",
                Phrase::ThAction => "ACTION",
                Phrase::HasLyrics => "Lyrics",
                Phrase::NoLyricsShort => "No lyrics",
                Phrase::BtnAddFolder => "➕ Add Folder [A]",
                Phrase::BtnRescan => "🔄 Rescan [R]",
                Phrase::BtnDelete => "[Delete]",
                Phrase::NoLyrics => "This track has no lyrics",
                Phrase::NoLyricsHints => "Put a .json or .lrc file with the same name beside the audio file",
                Phrase::Live => "● LIVE",
                Phrase::Paused => "⏸ PAUSED",
            },
        }
    }

    /// Cycle to the next language.
    /// The language the `I` key moves to: the next one in `ALL`, wrapping.
    pub open spec fn following(self) -> Language {
        match self {
            Language::Vietnamese => Language::English,
            Language::English => Language::Vietnamese,
        }
    }

    pub fn next(self) -> (r: Self)
        ensures
            r == self.following(),
    {
        match self {
            Language::Vietnamese => Language::English,
            Language::English => Language::Vietnamese,
        }
    }

    /// The whole locale of this language.
    pub fn config(self) -> (c: LocaleConfig)
        ensures
            c.code@ == self.spec_text(Phrase::Code),
            c.name@ == self.spec_text(Phrase::Name),
            c.header.play@ == self.spec_text(Phrase::Play),
            c.header.seek@ == self.spec_text(Phrase::Seek),
            c.header.track@ == self.spec_text(Phrase::Track),
            c.header.list@ == self.spec_text(Phrase::List),
            c.header.folders@ == self.spec_text(Phrase::Folders),
            c.header.spectrum@ == self.spec_text(Phrase::Spectrum),
            c.header.theme@ == self.spec_text(Phrase::Theme),
            c.header.note@ == self.spec_text(Phrase::Note),
            c.header.lang@ == self.spec_text(Phrase::Lang),
            c.header.quit@ == self.spec_text(Phrase::Quit),
            c.playlist.title@ == self.spec_text(Phrase::PlaylistTitle),
            c.playlist.folders_title@ == self.spec_text(Phrase::FoldersTitle),
            c.playlist.close@ == self.spec_text(Phrase::Close),
            c.playlist.footer_hints@ == self.spec_text(Phrase::FooterHints),
            c.playlist.folder_footer_hints@ == self.spec_text(Phrase::FolderFooterHints),
            c.playlist.live_badge@ == self.spec_text(Phrase::LiveBadge),
            c.playlist.tracks_tab@ == self.spec_text(Phrase::TracksTab),
            c.playlist.folders_tab@ == self.spec_text(Phrase::FoldersTab),
            c.playlist.add_folder_prompt@ == self.spec_text(Phrase::AddFolderPrompt),
            c.playlist.add_folder_hints@ == self.spec_text(Phrase::AddFolderHints),
            c.playlist.folder_empty@ == self.spec_text(Phrase::FolderEmpty),
            c.playlist.folder_count@ == self.spec_text(Phrase::FolderCount),
            c.playlist.th_no@ == self.spec_text(Phrase::ThNo),
            c.playlist.th_title@ == self.spec_text(Phrase::ThTitle),
            c.playlist.th_artist@ == self.spec_text(Phrase::ThArtist),
            c.playlist.th_status@ == self.spec_text(Phrase::ThStatus),
            c.playlist.th_folder@ == self.spec_text(Phrase::ThFolder),
            c.playlist.th_count@ == self.spec_text(Phrase::ThCount),
            c.playlist.th_action@ == self.spec_text(Phrase::ThAction),
            c.playlist.has_lyrics@ == self.spec_text(Phrase::HasLyrics),
            c.playlist.no_lyrics_short@ == self.spec_text(Phrase::NoLyricsShort),
            c.playlist.btn_add_folder@ == self.spec_text(Phrase::BtnAddFolder),
            c.playlist.btn_rescan@ == self.spec_text(Phrase::BtnRescan),
            c.playlist.btn_delete@ == self.spec_text(Phrase::BtnDelete),
            c.player.no_lyrics@ == self.spec_text(Phrase::NoLyrics),
            c.player.no_lyrics_hints@ == self.spec_text(Phrase::NoLyricsHints),
            c.status.live@ == self.spec_text(Phrase::Live),
            c.status.paused@ == self.spec_text(Phrase::Paused),
    {
        LocaleConfig {
            code: string_from(self.text(Phrase::Code)),
            name: string_from(self.text(Phrase::Name)),
            header: HeaderLocale {
                play: string_from(self.text(Phrase::Play)),
                seek: string_from(self.text(Phrase::Seek)),
                track: string_from(self.text(Phrase::Track)),
                list: string_from(self.text(Phrase::List)),
                folders: string_from(self.text(Phrase::Folders)),
                spectrum: string_from(self.text(Phrase::Spectrum)),
                theme: string_from(self.text(Phrase::Theme)),
                note: string_from(self.text(Phrase::Note)),
                lang: string_from(self.text(Phrase::Lang)),
                quit: string_from(self.text(Phrase::Quit)),
            },
            playlist: PlaylistLocale {
                title: string_from(self.text(Phrase::PlaylistTitle)),
                folders_title: string_from(self.text(Phrase::FoldersTitle)),
                close: string_from(self.text(Phrase::Close)),
                footer_hints: string_from(self.text(Phrase::FooterHints)),
                folder_footer_hints: string_from(self.text(Phrase::FolderFooterHints)),
                live_badge: string_from(self.text(Phrase::LiveBadge)),
                tracks_tab: string_from(self.text(Phrase::TracksTab)),
                folders_tab: string_from(self.text(Phrase::FoldersTab)),
                add_folder_prompt: string_from(self.text(Phrase::AddFolderPrompt)),
                add_folder_hints: string_from(self.text(Phrase::AddFolderHints)),
                folder_empty: string_from(self.text(Phrase::FolderEmpty)),
                folder_count: string_from(self.text(Phrase::FolderCount)),
                th_no: string_from(self.text(Phrase::ThNo)),
                th_title: string_from(self.text(Phrase::ThTitle)),
                th_artist: string_from(self.text(Phrase::ThArtist)),
                th_status: string_from(self.text(Phrase::ThStatus)),
                th_folder: string_from(self.text(Phrase::ThFolder)),
                th_count: string_from(self.text(Phrase::ThCount)),
                th_action: string_from(self.text(Phrase::ThAction)),
                has_lyrics: string_from(self.text(Phrase::HasLyrics)),
                no_lyrics_short: string_from(self.text(Phrase::NoLyricsShort)),
                btn_add_folder: string_from(self.text(Phrase::BtnAddFolder)),
                btn_rescan: string_from(self.text(Phrase::BtnRescan)),
                btn_delete: string_from(self.text(Phrase::BtnDelete)),
            },
            player: PlayerLocale {
                no_lyrics: string_from(self.text(Phrase::NoLyrics)),
                no_lyrics_hints: string_from(self.text(Phrase::NoLyricsHints)),
            },
            status: StatusLocale {
                live: string_from(self.text(Phrase::Live)),
                paused: string_from(self.text(Phrase::Paused)),
            },
        }
    }

    /// Two-letter language code (e.g. "vi", "en").
    pub fn code(self) -> (r: &'static str)
        ensures
            r@ == self.spec_text(Phrase::Code),
    {
        self.text(Phrase::Code)
    }

    /// Full human-readable language name.
    pub fn name(self) -> (r: &'static str)
        ensures
            r@ == self.spec_text(Phrase::Name),
    {
        self.text(Phrase::Name)
    }

    /// The keybindings guide shown in the header: every binding with its
    /// label, the current spectrum style and theme, and the language code in
    /// capitals.
    pub open spec fn spec_keybinds_guide(self, spectrum_name: Seq<char>, theme_name: Seq<char>) -> Seq<char> {
        self.spec_guide_with(spectrum_name, theme_name, spec_str_to_uppercase(self.spec_text(Phrase::Code)))
    }

    /// The keybindings guide with the language code given in capitals as
    /// `code`.
    pub open spec fn spec_guide_with(self, spectrum_name: Seq<char>, theme_name: Seq<char>, code: Seq<char>) -> Seq<char> {
        let t = |p: Phrase| self.spec_text(p);
        let sep = seq![' ', ' '];
        t(Phrase::Play) + sep + t(Phrase::Seek) + sep + t(Phrase::Track) + sep + t(Phrase::List) + sep
            + t(Phrase::Folders) + sep + "[S] "@ + t(Phrase::Spectrum) + ": "@ + spectrum_name + sep
            + "[C] "@ + t(Phrase::Theme) + ": "@ + theme_name + sep + "[N] "@ + t(Phrase::Note) + sep
            + "[I] "@ + t(Phrase::Lang) + ": "@ + code + sep + t(Phrase::Quit)
    }

    /// Full keybindings guide rendered in the top header.
    pub fn keybinds_guide(self, spectrum_name: &str, theme_name: &str) -> (r: String)
        ensures
            r@ == self.spec_keybinds_guide(spectrum_name@, theme_name@),
    {
        let code = str_to_uppercase(self.code());
        self.guide_with(spectrum_name, theme_name, code.as_str())
    }

    /// The keybindings guide with the language code given in capitals.
    pub fn guide_with(self, spectrum_name: &str, theme_name: &str, code: &str) -> (r: String)
        ensures
            r@ == self.spec_guide_with(spectrum_name@, theme_name@, code@),
    {
        let mut r = string_from(self.text(Phrase::Play));
        r.append("  ");
        r.append(self.text(Phrase::Seek));
        r.append("  ");
        r.append(self.text(Phrase::Track));
        r.append("  ");
        r.append(self.text(Phrase::List));
        r.append("  ");
        r.append(self.text(Phrase::Folders));
        r.append("  ");
        r.append("[S] ");
        r.append(self.text(Phrase::Spectrum));
        r.append(": ");
        r.append(spectrum_name);
        r.append("  ");
        r.append("[C] ");
        r.append(self.text(Phrase::Theme));
        r.append(": ");
        r.append(theme_name);
        r.append("  ");
        r.append("[N] ");
        r.append(self.text(Phrase::Note));
        r.append("  ");
        r.append("[I] ");
        r.append(self.text(Phrase::Lang));
        r.append(": ");
        r.append(code);
        r.append("  ");
        r.append(self.text(Phrase::Quit));
        proof {
            reveal_strlit("  ");
            assert("  "@ == seq![' ', ' ']);
        }
        r
    }

    /// Tracks tab label.
    pub fn tracks_tab(self) -> (r: &'static str)
        ensures
            r@ == self.spec_text(Phrase::TracksTab),
    {
        self.text(Phrase::TracksTab)
    }

    /// Folders tab label.
    pub fn folders_tab(self) -> (r: &'static str)
        ensures
            r@ == self.spec_text(Phrase::FoldersTab),
    {
        self.text(Phrase::FoldersTab)
    }

    /// Close button label in the playlist modal.
    pub fn playlist_close_btn(self) -> (r: &'static str)
        ensures
            r@ == self.spec_text(Phrase::Close),
    {
        self.text(Phrase::Close)
    }

    /// Footer keyboard hint bar inside the playlist modal.
    pub fn playlist_footer_hints(self) -> (r: &'static str)
        ensures
            r@ == self.spec_text(Phrase::FooterHints),
    {
        self.text(Phrase::FooterHints)
    }

    /// Footer keyboard hint bar inside the folder manager modal.
    pub fn folder_footer_hints(self) -> (r: &'static str)
        ensures
            r@ == self.spec_text(Phrase::FolderFooterHints),
    {
        self.text(Phrase::FolderFooterHints)
    }

    /// Add folder prompt.
    pub fn add_folder_prompt(self) -> (r: &'static str)
        ensures
            r@ == self.spec_text(Phrase::AddFolderPrompt),
    {
        self.text(Phrase::AddFolderPrompt)
    }

    /// Add folder hints.
    pub fn add_folder_hints(self) -> (r: &'static str)
        ensures
            r@ == self.spec_text(Phrase::AddFolderHints),
    {
        self.text(Phrase::AddFolderHints)
    }

    /// Empty folder notice.
    pub fn folder_empty(self) -> (r: &'static str)
        ensures
            r@ == self.spec_text(Phrase::FolderEmpty),
    {
        self.text(Phrase::FolderEmpty)
    }

    /// Folder song count suffix.
    pub fn folder_count(self) -> (r: &'static str)
        ensures
            r@ == self.spec_text(Phrase::FolderCount),
    {
        self.text(Phrase::FolderCount)
    }

    /// Table header: No (#).
    pub fn th_no(self) -> (r: &'static str)
        ensures
            r@ == self.spec_text(Phrase::ThNo),
    {
        self.text(Phrase::ThNo)
    }

    /// Table header: Title.
    pub fn th_title(self) -> (r: &'static str)
        ensures
            r@ == self.spec_text(Phrase::ThTitle),
    {
        self.text(Phrase::ThTitle)
    }

    /// Table header: Artist.
    pub fn th_artist(self) -> (r: &'static str)
        ensures
            r@ == self.spec_text(Phrase::ThArtist),
    {
        self.text(Phrase::ThArtist)
    }

    /// Table header: Status.
    pub fn th_status(self) -> (r: &'static str)
        ensures
            r@ == self.spec_text(Phrase::ThStatus),
    {
        self.text(Phrase::ThStatus)
    }

    /// Table header: Folder Path.
    pub fn th_folder(self) -> (r: &'static str)
        ensures
            r@ == self.spec_text(Phrase::ThFolder),
    {
        self.text(Phrase::ThFolder)
    }

    /// Table header: Track Count.
    pub fn th_count(self) -> (r: &'static str)
        ensures
            r@ == self.spec_text(Phrase::ThCount),
    {
        self.text(Phrase::ThCount)
    }

    /// Table header: Action.
    pub fn th_action(self) -> (r: &'static str)
        ensures
            r@ == self.spec_text(Phrase::ThAction),
    {
        self.text(Phrase::ThAction)
    }

    /// Label: Has lyrics.
    pub fn has_lyrics(self) -> (r: &'static str)
        ensures
            r@ == self.spec_text(Phrase::HasLyrics),
    {
        self.text(Phrase::HasLyrics)
    }

    /// Label: Instrumental / No lyrics.
    pub fn no_lyrics_short(self) -> (r: &'static str)
        ensures
            r@ == self.spec_text(Phrase::NoLyricsShort),
    {
        self.text(Phrase::NoLyricsShort)
    }

    /// Button: Add folder.
    pub fn btn_add_folder(self) -> (r: &'static str)
        ensures
            r@ == self.spec_text(Phrase::BtnAddFolder),
    {
        self.text(Phrase::BtnAddFolder)
    }

    /// Button: Rescan folders.
    pub fn btn_rescan(self) -> (r: &'static str)
        ensures
            r@ == self.spec_text(Phrase::BtnRescan),
    {
        self.text(Phrase::BtnRescan)
    }

    /// Button: Delete folder.
    pub fn btn_delete(self) -> (r: &'static str)
        ensures
            r@ == self.spec_text(Phrase::BtnDelete),
    {
        self.text(Phrase::BtnDelete)
    }

    /// Live badge text inside playlist modal.
    pub fn live_badge(self) -> (r: &'static str)
        ensures
            r@ == self.spec_text(Phrase::LiveBadge),
    {
        self.text(Phrase::LiveBadge)
    }

    /// Placeholder message when a track has no lyrics file.
    pub fn no_lyrics_text(self) -> (r: &'static str)
        ensures
            r@ == self.spec_text(Phrase::NoLyrics),
    {
        self.text(Phrase::NoLyrics)
    }

    /// Sub-hint when a track has no lyrics file.
    pub fn no_lyrics_hints(self) -> (r: &'static str)
        ensures
            r@ == self.spec_text(Phrase::NoLyricsHints),
    {
        self.text(Phrase::NoLyricsHints)
    }

    /// Live badge text.
    pub fn live_label(self) -> (r: &'static str)
        ensures
            r@ == self.spec_text(Phrase::Live),
    {
        self.text(Phrase::Live)
    }

    /// Paused badge text.
    pub fn paused_label(self) -> (r: &'static str)
        ensures
            r@ == self.spec_text(Phrase::Paused),
    {
        self.text(Phrase::Paused)
    }

}

/// Cycling visits every language and comes back: two presses of `I`
/// return to where they started, and one press always changes language.
pub proof fn lemma_language_cycle(l: Language)
    ensures
        l.following().following() == l,
        l.following() != l,
{
}

} // verus!
