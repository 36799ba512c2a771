//! Colours and the theme presets.
//!
//! A colour is three bytes. Blending colours takes fractional arithmetic and
//! is done where the screen is drawn; the palettes themselves are plain data.

use vstd::prelude::*;

verus! {

/// A 24-bit colour.
#[derive(Clone, Copy, Debug, PartialEq, Eq, Structural)]
pub struct Rgb {
    pub r: u8,
    pub g: u8,
    pub b: u8,
}

pub open spec fn spec_rgb(r: u8, g: u8, b: u8) -> Rgb {
    Rgb { r, g, b }
}

pub fn rgb(r: u8, g: u8, b: u8) -> (c: Rgb)
    ensures
        c == spec_rgb(r, g, b),
{
    Rgb { r, g, b }
}

/// Color theme presets. Cycled with the `C` key.
#[derive(Clone, Copy, Debug, PartialEq, Eq, Structural)]
pub enum ThemePreset {
    Emerald,
    Cyberpunk,
    Ocean,
    Sunset,
    Sakura,
    Mono,
    Light,
}

impl Default for ThemePreset {
    fn default() -> (p: Self)
        ensures
            p == ThemePreset::Emerald,
    {
        ThemePreset::Emerald
    }
}

/// How many presets there are.
pub open spec fn preset_count() -> int {
    7
}

impl ThemePreset {
    /// Every preset, in the order the `C` key steps through them.
    pub const ALL: [ThemePreset; 7] = [
        ThemePreset::Emerald,
        ThemePreset::Cyberpunk,
        ThemePreset::Ocean,
        ThemePreset::Sunset,
        ThemePreset::Sakura,
        ThemePreset::Mono,
        ThemePreset::Light,
    ];

    /// Position of the preset in the cycle.
    pub open spec fn index(self) -> int {
        match self {
            ThemePreset::Emerald => 0,
            ThemePreset::Cyberpunk => 1,
            ThemePreset::Ocean => 2,
            ThemePreset::Sunset => 3,
            ThemePreset::Sakura => 4,
            ThemePreset::Mono => 5,
            ThemePreset::Light => 6,
        }
    }

    /// The preset at position `i` of the cycle.
    pub open spec fn at(i: int) -> ThemePreset {
        if i == 0 {
            ThemePreset::Emerald
        } else if i == 1 {
            ThemePreset::Cyberpunk
        } else if i == 2 {
            ThemePreset::Ocean
        } else if i == 3 {
            ThemePreset::Sunset
        } else if i == 4 {
            ThemePreset::Sakura
        } else if i == 5 {
            ThemePreset::Mono
        } else {
            ThemePreset::Light
        }
    }

    /// The preset's name as the UI shows it.
    pub open spec fn spec_name(self) -> Seq<char> {
        match self {
            ThemePreset::Emerald => "emerald"@,
            ThemePreset::Cyberpunk => "cyberpunk"@,
            ThemePreset::Ocean => "ocean"@,
            ThemePreset::Sunset => "sunset"@,
            ThemePreset::Sakura => "sakura"@,
            ThemePreset::Mono => "mono"@,
            ThemePreset::Light => "light"@,
        }
    }

    /// The next preset in the cycle, wrapping from the last to the first.
    pub fn next(self) -> (r: Self)
        ensures
            r.index() == (self.index() + 1) % preset_count(),
    {
        match self {
            ThemePreset::Emerald => ThemePreset::Cyberpunk,
            ThemePreset::Cyberpunk => ThemePreset::Ocean,
            ThemePreset::Ocean => ThemePreset::Sunset,
            ThemePreset::Sunset => ThemePreset::Sakura,
            ThemePreset::Sakura => ThemePreset::Mono,
            ThemePreset::Mono => ThemePreset::Light,
            ThemePreset::Light => ThemePreset::Emerald,
        }
    }

    pub fn name(self) -> (r: &'static str)
        ensures
            r@ == self.spec_name(),
    {
        match self {
            ThemePreset::Emerald => "emerald",
            ThemePreset::Cyberpunk => "cyberpunk",
            ThemePreset::Ocean => "ocean",
            ThemePreset::Sunset => "sunset",
            ThemePreset::Sakura => "sakura",
            ThemePreset::Mono => "mono",
            ThemePreset::Light => "light",
        }
    }

    pub fn theme(self) -> (t: Theme)
        ensures
            t == Theme::palette(self),
    {
        Theme::from_preset(self)
    }
}

/// `n` presses of the `C` key from `p`.
pub open spec fn presses(p: ThemePreset, n: nat) -> ThemePreset
    decreases n,
{
    if n == 0 {
        p
    } else {
        ThemePreset::at((presses(p, (n - 1) as nat).index() + 1) % preset_count())
    }
}

/// `at` and `index` are inverse: the cycle holds every preset exactly once.
pub proof fn lemma_index_at(p: ThemePreset)
    ensures
        0 <= p.index() < preset_count(),
        ThemePreset::at(p.index()) == p,
{
}

/// Cycling visits every theme and comes back: `k` presses of `C` from any
/// preset move `k` places round the cycle of seven, so seven presses return
/// to where they began.
pub proof fn lemma_cycle_visits_every_theme(p: ThemePreset, k: nat)
    ensures
        presses(p, k).index() == (p.index() + k) % preset_count(),
        presses(p, 7) == p,
{
    lemma_presses_index(p, k);
    lemma_presses_index(p, 7);
    lemma_index_at(p);
    lemma_index_at(presses(p, 7));
}

proof fn lemma_presses_index(p: ThemePreset, k: nat)
    ensures
        presses(p, k).index() == (p.index() + k) % preset_count(),
    decreases k,
{
    if k > 0 {
        lemma_presses_index(p, (k - 1) as nat);
        let prev = presses(p, (k - 1) as nat).index();
        vstd::arithmetic::div_mod::lemma_add_mod_noop(p.index() + k - 1, 1, 7);
        vstd::arithmetic::div_mod::lemma_mod_twice(p.index() + k - 1, 7);
        vstd::arithmetic::div_mod::lemma_mod_bound(p.index() + k - 1, 7);
        assert(ThemePreset::at((prev + 1) % 7).index() == (prev + 1) % 7);
    } else {
        lemma_index_at(p);
        vstd::arithmetic::div_mod::lemma_small_mod(p.index() as nat, 7);
    }
}

/// Complete color palette for rendering the UI.
#[derive(Clone, Copy, Debug, PartialEq)]
pub struct Theme {
    pub name: &'static str,
    pub border: Rgb,
    pub header: Rgb,
    pub live: Rgb,
    pub paused: Rgb,
    pub elapsed: Rgb,
    pub remaining: Rgb,
    pub ticker: Rgb,
    pub keybinds_dim: Rgb,
    pub highlight: Rgb,
    pub lyric_past: Rgb,
    pub lyric_future: Rgb,
    pub lyric_singing: Rgb,
    pub lyric_hit: Rgb,
    pub lyric_hit_peak: Rgb,
    pub spectrum_edge: Rgb,
    pub spectrum_fill: Rgb,
    pub spectrum_peak: Rgb,
    pub note_label: Rgb,
    pub dark_base: (u8, u8, u8),
}

impl Default for Theme {
    fn default() -> (t: Self)
        ensures
            t == Theme::palette(ThemePreset::Emerald),
    {
        ThemePreset::Emerald.theme()
    }
}

impl Theme {
    /// The palette of each preset.
    pub open spec fn palette(preset: ThemePreset) -> Theme {
        match preset {
            ThemePreset::Emerald => Theme {
                name: "emerald",
                border: spec_rgb(0x22, 0xC5, 0x5E),
                header: spec_rgb(0x4A, 0xDE, 0x80),
                live: spec_rgb(0x22, 0xC5, 0x5E),
                paused: spec_rgb(0xEA, 0xB3, 0x08),
                elapsed: spec_rgb(0x22, 0xC5, 0x5E),
                remaining: spec_rgb(0x37, 0x41, 0x51),
                ticker: spec_rgb(0x86, 0xEF, 0xAC),
                keybinds_dim: spec_rgb(0x4B, 0x55, 0x63),
                highlight: spec_rgb(0x86, 0xEF, 0xAC),
                lyric_past: spec_rgb(0x16, 0xA3, 0x4A),
                lyric_future: spec_rgb(0x4B, 0x55, 0x63),
                lyric_singing: spec_rgb(0xF0, 0xFD, 0xF4),
                lyric_hit: spec_rgb(0x4A, 0xDE, 0x80),
                lyric_hit_peak: spec_rgb(0xFF, 0xFF, 0xFF),
                spectrum_edge: spec_rgb(0xBB, 0xF7, 0xD0),
                spectrum_fill: spec_rgb(0x15, 0x80, 0x3D),
                spectrum_peak: spec_rgb(0xF0, 0xFD, 0xF4),
                note_label: spec_rgb(0x86, 0xEF, 0xAC),
                dark_base: (0x03, 0x07, 0x12),
            },
            ThemePreset::Cyberpunk => Theme {
                name: "cyberpunk",
                border: spec_rgb(0xEC, 0x48, 0x99),
                header: spec_rgb(0xF4, 0x72, 0xB6),
                live: spec_rgb(0x06, 0xB6, 0xD4),
                paused: spec_rgb(0xF5, 0x9E, 0x0B),
                elapsed: spec_rgb(0xEC, 0x48, 0x99),
                remaining: spec_rgb(0x3F, 0x3F, 0x46),
                ticker: spec_rgb(0x67, 0xE8, 0xF9),
                keybinds_dim: spec_rgb(0x52, 0x52, 0x5B),
                highlight: spec_rgb(0xF4, 0x72, 0xB6),
                lyric_past: spec_rgb(0x9D, 0x17, 0x4D),
                lyric_future: spec_rgb(0x71, 0x71, 0x7A),
                lyric_singing: spec_rgb(0xFD, 0xFA, 0xFC),
                lyric_hit: spec_rgb(0x06, 0xB6, 0xD4),
                lyric_hit_peak: spec_rgb(0xFF, 0xFF, 0xFF),
                spectrum_edge: spec_rgb(0x67, 0xE8, 0xF9),
                spectrum_fill: spec_rgb(0x83, 0x18, 0x43),
                spectrum_peak: spec_rgb(0xFE, 0xF0, 0x8A),
                note_label: spec_rgb(0x67, 0xE8, 0xF9),
                dark_base: (0x0F, 0x05, 0x1D),
            },
            ThemePreset::Ocean => Theme {
                name: "ocean",
                border: spec_rgb(0x0E, 0xA5, 0xE9),
                header: spec_rgb(0x38, 0xBD, 0xF8),
                live: spec_rgb(0x0E, 0xA5, 0xE9),
                paused: spec_rgb(0xFB, 0xBF, 0x24),
                elapsed: spec_rgb(0x02, 0x84, 0xC7),
                remaining: spec_rgb(0x33, 0x41, 0x55),
                ticker: spec_rgb(0x7D, 0xD3, 0xFC),
                keybinds_dim: spec_rgb(0x47, 0x55, 0x69),
                highlight: spec_rgb(0x38, 0xBD, 0xF8),
                lyric_past: spec_rgb(0x03, 0x69, 0xA1),
                lyric_future: spec_rgb(0x47, 0x55, 0x69),
                lyric_singing: spec_rgb(0xF0, 0xF9, 0xFF),
                lyric_hit: spec_rgb(0x38, 0xBD, 0xF8),
                lyric_hit_peak: spec_rgb(0xFF, 0xFF, 0xFF),
                spectrum_edge: spec_rgb(0xBA, 0xE6, 0xFD),
                spectrum_fill: spec_rgb(0x07, 0x59, 0x85),
                spectrum_peak: spec_rgb(0xF0, 0xF9, 0xFF),
                note_label: spec_rgb(0x7D, 0xD3, 0xFC),
                dark_base: (0x02, 0x06, 0x17),
            },
            ThemePreset::Sunset => Theme {
                name: "sunset",
                border: spec_rgb(0xF9, 0x73, 0x16),
                header: spec_rgb(0xFB, 0x92, 0x3C),
                live: spec_rgb(0xFB, 0x92, 0x3C),
                paused: spec_rgb(0xEF, 0x44, 0x44),
                elapsed: spec_rgb(0xEA, 0x58, 0x0C),
                remaining: spec_rgb(0x44, 0x40, 0x3C),
                ticker: spec_rgb(0xFD, 0xBA, 0x74),
                keybinds_dim: spec_rgb(0x57, 0x53, 0x4E),
                highlight: spec_rgb(0xFE, 0xD7, 0xAA),
                lyric_past: spec_rgb(0xC2, 0x41, 0x0C),
                lyric_future: spec_rgb(0x78, 0x71, 0x6C),
                lyric_singing: spec_rgb(0xFF, 0xFB, 0xEB),
                lyric_hit: spec_rgb(0xFB, 0x92, 0x3C),
                lyric_hit_peak: spec_rgb(0xFF, 0xFF, 0xFF),
                spectrum_edge: spec_rgb(0xFE, 0xD7, 0xAA),
                spectrum_fill: spec_rgb(0x9A, 0x34, 0x12),
                spectrum_peak: spec_rgb(0xFE, 0xF0, 0x8A),
                note_label: spec_rgb(0xFD, 0xBA, 0x74),
                dark_base: (0x1C, 0x0A, 0x00),
            },
            ThemePreset::Sakura => Theme {
                name: "sakura",
                border: spec_rgb(0xF4, 0x3F, 0x5E),
                header: spec_rgb(0xFB, 0x71, 0x85),
                live: spec_rgb(0xFB, 0x71, 0x85),
                paused: spec_rgb(0xEA, 0xB3, 0x08),
                elapsed: spec_rgb(0xE1, 0x1D, 0x48),
                remaining: spec_rgb(0x4C, 0x05, 0x19),
                ticker: spec_rgb(0xFD, 0xA4, 0xAF),
                keybinds_dim: spec_rgb(0x71, 0x3F, 0x4C),
                highlight: spec_rgb(0xFF, 0xE4, 0xE6),
                lyric_past: spec_rgb(0xBE, 0x12, 0x3C),
                lyric_future: spec_rgb(0x88, 0x13, 0x37),
                lyric_singing: spec_rgb(0xFF, 0xF1, 0xF2),
                lyric_hit: spec_rgb(0xFB, 0x71, 0x85),
                lyric_hit_peak: spec_rgb(0xFF, 0xFF, 0xFF),
                spectrum_edge: spec_rgb(0xFE, 0xCD, 0xD3),
                spectrum_fill: spec_rgb(0x88, 0x13, 0x37),
                spectrum_peak: spec_rgb(0xFF, 0xFF, 0xFF),
                note_label: spec_rgb(0xFD, 0xA4, 0xAF),
                dark_base: (0x14, 0x02, 0x07),
            },
            ThemePreset::Mono => Theme {
                name: "mono",
                border: spec_rgb(0x94, 0xA3, 0xB8),
                header: spec_rgb(0xE2, 0xE8, 0xF0),
                live: spec_rgb(0xE2, 0xE8, 0xF0),
                paused: spec_rgb(0x94, 0xA3, 0xB8),
                elapsed: spec_rgb(0x94, 0xA3, 0xB8),
                remaining: spec_rgb(0x33, 0x41, 0x55),
                ticker: spec_rgb(0xCB, 0xD5, 0xE1),
                keybinds_dim: spec_rgb(0x64, 0x74, 0x8B),
                highlight: spec_rgb(0xFF, 0xFF, 0xFF),
                lyric_past: spec_rgb(0x64, 0x74, 0x8B),
                lyric_future: spec_rgb(0x47, 0x55, 0x69),
                lyric_singing: spec_rgb(0xF8, 0xFA, 0xFC),
                lyric_hit: spec_rgb(0xCB, 0xD5, 0xE1),
                lyric_hit_peak: spec_rgb(0xFF, 0xFF, 0xFF),
                spectrum_edge: spec_rgb(0xF1, 0xF5, 0xF9),
                spectrum_fill: spec_rgb(0x47, 0x55, 0x69),
                spectrum_peak: spec_rgb(0xFF, 0xFF, 0xFF),
                note_label: spec_rgb(0xCB, 0xD5, 0xE1),
                dark_base: (0x02, 0x06, 0x17),
            },
            ThemePreset::Light => Theme {
                name: "light",
                border: spec_rgb(0x64, 0x74, 0x8B),
                header: spec_rgb(0x1E, 0x29, 0x3B),
                live: spec_rgb(0x16, 0xA3, 0x4A),
                paused: spec_rgb(0xD9, 0x77, 0x06),
                elapsed: spec_rgb(0x25, 0x63, 0xEB),
                remaining: spec_rgb(0xCB, 0xD5, 0xE1),
                ticker: spec_rgb(0x47, 0x55, 0x69),
                keybinds_dim: spec_rgb(0x94, 0xA3, 0xB8),
                highlight: spec_rgb(0x1D, 0x4E, 0xD8),
                lyric_past: spec_rgb(0x64, 0x74, 0x8B),
                lyric_future: spec_rgb(0x94, 0xA3, 0xB8),
                lyric_singing: spec_rgb(0x0F, 0x17, 0x2A),
                lyric_hit: spec_rgb(0x25, 0x63, 0xEB),
                lyric_hit_peak: spec_rgb(0x1E, 0x3A, 0x8A),
                spectrum_edge: spec_rgb(0x3B, 0x82, 0xF6),
                spectrum_fill: spec_rgb(0xBF, 0xDB, 0xFE),
                spectrum_peak: spec_rgb(0x1E, 0x3A, 0x8A),
                note_label: spec_rgb(0x47, 0x55, 0x69),
                dark_base: (0xF8, 0xFA, 0xFC),
            },
        }
    }

    pub fn from_preset(preset: ThemePreset) -> (t: Self)
        ensures
            t == Theme::palette(preset),
            t.name@ == preset.spec_name(),
    {
        match preset {
            ThemePreset::Emerald => Theme {
                name: "emerald",
                border: rgb(0x22, 0xC5, 0x5E),
                header: rgb(0x4A, 0xDE, 0x80),
                live: rgb(0x22, 0xC5, 0x5E),
                paused: rgb(0xEA, 0xB3, 0x08),
                elapsed: rgb(0x22, 0xC5, 0x5E),
                remaining: rgb(0x37, 0x41, 0x51),
                ticker: rgb(0x86, 0xEF, 0xAC),
                keybinds_dim: rgb(0x4B, 0x55, 0x63),
                highlight: rgb(0x86, 0xEF, 0xAC),
                lyric_past: rgb(0x16, 0xA3, 0x4A),
                lyric_future: rgb(0x4B, 0x55, 0x63),
                lyric_singing: rgb(0xF0, 0xFD, 0xF4),
                lyric_hit: rgb(0x4A, 0xDE, 0x80),
                lyric_hit_peak: rgb(0xFF, 0xFF, 0xFF),
                spectrum_edge: rgb(0xBB, 0xF7, 0xD0),
                spectrum_fill: rgb(0x15, 0x80, 0x3D),
                spectrum_peak: rgb(0xF0, 0xFD, 0xF4),
                note_label: rgb(0x86, 0xEF, 0xAC),
                dark_base: (0x03, 0x07, 0x12),
            },
            ThemePreset::Cyberpunk => Theme {
                name: "cyberpunk",
                border: rgb(0xEC, 0x48, 0x99),
                header: rgb(0xF4, 0x72, 0xB6),
                live: rgb(0x06, 0xB6, 0xD4),
                paused: rgb(0xF5, 0x9E, 0x0B),
                elapsed: rgb(0xEC, 0x48, 0x99),
                remaining: rgb(0x3F, 0x3F, 0x46),
                ticker: rgb(0x67, 0xE8, 0xF9),
                keybinds_dim: rgb(0x52, 0x52, 0x5B),
                highlight: rgb(0xF4, 0x72, 0xB6),
                lyric_past: rgb(0x9D, 0x17, 0x4D),
                lyric_future: rgb(0x71, 0x71, 0x7A),
                lyric_singing: rgb(0xFD, 0xFA, 0xFC),
                lyric_hit: rgb(0x06, 0xB6, 0xD4),
                lyric_hit_peak: rgb(0xFF, 0xFF, 0xFF),
                spectrum_edge: rgb(0x67, 0xE8, 0xF9),
                spectrum_fill: rgb(0x83, 0x18, 0x43),
                spectrum_peak: rgb(0xFE, 0xF0, 0x8A),
                note_label: rgb(0x67, 0xE8, 0xF9),
                dark_base: (0x0F, 0x05, 0x1D),
            },
            ThemePreset::Ocean => Theme {
                name: "ocean",
                border: rgb(0x0E, 0xA5, 0xE9),
                header: rgb(0x38, 0xBD, 0xF8),
                live: rgb(0x0E, 0xA5, 0xE9),
                paused: rgb(0xFB, 0xBF, 0x24),
                elapsed: rgb(0x02, 0x84, 0xC7),
                remaining: rgb(0x33, 0x41, 0x55),
                ticker: rgb(0x7D, 0xD3, 0xFC),
                keybinds_dim: rgb(0x47, 0x55, 0x69),
                highlight: rgb(0x38, 0xBD, 0xF8),
                lyric_past: rgb(0x03, 0x69, 0xA1),
                lyric_future: rgb(0x47, 0x55, 0x69),
                lyric_singing: rgb(0xF0, 0xF9, 0xFF),
                lyric_hit: rgb(0x38, 0xBD, 0xF8),
                lyric_hit_peak: rgb(0xFF, 0xFF, 0xFF),
                spectrum_edge: rgb(0xBA, 0xE6, 0xFD),
                spectrum_fill: rgb(0x07, 0x59, 0x85),
                spectrum_peak: rgb(0xF0, 0xF9, 0xFF),
                note_label: rgb(0x7D, 0xD3, 0xFC),
                dark_base: (0x02, 0x06, 0x17),
            },
            ThemePreset::Sunset => Theme {
                name: "sunset",
                border: rgb(0xF9, 0x73, 0x16),
                header: rgb(0xFB, 0x92, 0x3C),
                live: rgb(0xFB, 0x92, 0x3C),
                paused: rgb(0xEF, 0x44, 0x44),
                elapsed: rgb(0xEA, 0x58, 0x0C),
                remaining: rgb(0x44, 0x40, 0x3C),
                ticker: rgb(0xFD, 0xBA, 0x74),
                keybinds_dim: rgb(0x57, 0x53, 0x4E),
                highlight: rgb(0xFE, 0xD7, 0xAA),
                lyric_past: rgb(0xC2, 0x41, 0x0C),
                lyric_future: rgb(0x78, 0x71, 0x6C),
                lyric_singing: rgb(0xFF, 0xFB, 0xEB),
                lyric_hit: rgb(0xFB, 0x92, 0x3C),
                lyric_hit_peak: rgb(0xFF, 0xFF, 0xFF),
                spectrum_edge: rgb(0xFE, 0xD7, 0xAA),
                spectrum_fill: rgb(0x9A, 0x34, 0x12),
                spectrum_peak: rgb(0xFE, 0xF0, 0x8A),
                note_label: rgb(0xFD, 0xBA, 0x74),
                dark_base: (0x1C, 0x0A, 0x00),
            },
            ThemePreset::Sakura => Theme {
                name: "sakura",
                border: rgb(0xF4, 0x3F, 0x5E),
                header: rgb(0xFB, 0x71, 0x85),
                live: rgb(0xFB, 0x71, 0x85),
                paused: rgb(0xEA, 0xB3, 0x08),
                elapsed: rgb(0xE1, 0x1D, 0x48),
                remaining: rgb(0x4C, 0x05, 0x19),
                ticker: rgb(0xFD, 0xA4, 0xAF),
                keybinds_dim: rgb(0x71, 0x3F, 0x4C),
                highlight: rgb(0xFF, 0xE4, 0xE6),
                lyric_past: rgb(0xBE, 0x12, 0x3C),
                lyric_future: rgb(0x88, 0x13, 0x37),
                lyric_singing: rgb(0xFF, 0xF1, 0xF2),
                lyric_hit: rgb(0xFB, 0x71, 0x85),
                lyric_hit_peak: rgb(0xFF, 0xFF, 0xFF),
                spectrum_edge: rgb(0xFE, 0xCD, 0xD3),
                spectrum_fill: rgb(0x88, 0x13, 0x37),
                spectrum_peak: rgb(0xFF, 0xFF, 0xFF),
                note_label: rgb(0xFD, 0xA4, 0xAF),
                dark_base: (0x14, 0x02, 0x07),
            },
            ThemePreset::Mono => Theme {
                name: "mono",
                border: rgb(0x94, 0xA3, 0xB8),
                header: rgb(0xE2, 0xE8, 0xF0),
                live: rgb(0xE2, 0xE8, 0xF0),
                paused: rgb(0x94, 0xA3, 0xB8),
                elapsed: rgb(0x94, 0xA3, 0xB8),
                remaining: rgb(0x33, 0x41, 0x55),
                ticker: rgb(0xCB, 0xD5, 0xE1),
                keybinds_dim: rgb(0x64, 0x74, 0x8B),
                highlight: rgb(0xFF, 0xFF, 0xFF),
                lyric_past: rgb(0x64, 0x74, 0x8B),
                lyric_future: rgb(0x47, 0x55, 0x69),
                lyric_singing: rgb(0xF8, 0xFA, 0xFC),
                lyric_hit: rgb(0xCB, 0xD5, 0xE1),
                lyric_hit_peak: rgb(0xFF, 0xFF, 0xFF),
                spectrum_edge: rgb(0xF1, 0xF5, 0xF9),
                spectrum_fill: rgb(0x47, 0x55, 0x69),
                spectrum_peak: rgb(0xFF, 0xFF, 0xFF),
                note_label: rgb(0xCB, 0xD5, 0xE1),
                dark_base: (0x02, 0x06, 0x17),
            },
            ThemePreset::Light => Theme {
                name: "light",
                border: rgb(0x64, 0x74, 0x8B),
                header: rgb(0x1E, 0x29, 0x3B),
                live: rgb(0x16, 0xA3, 0x4A),
                paused: rgb(0xD9, 0x77, 0x06),
                elapsed: rgb(0x25, 0x63, 0xEB),
                remaining: rgb(0xCB, 0xD5, 0xE1),
                ticker: rgb(0x47, 0x55, 0x69),
                keybinds_dim: rgb(0x94, 0xA3, 0xB8),
                highlight: rgb(0x1D, 0x4E, 0xD8),
                lyric_past: rgb(0x64, 0x74, 0x8B),
                lyric_future: rgb(0x94, 0xA3, 0xB8),
                lyric_singing: rgb(0x0F, 0x17, 0x2A),
                lyric_hit: rgb(0x25, 0x63, 0xEB),
                lyric_hit_peak: rgb(0x1E, 0x3A, 0x8A),
                spectrum_edge: rgb(0x3B, 0x82, 0xF6),
                spectrum_fill: rgb(0xBF, 0xDB, 0xFE),
                spectrum_peak: rgb(0x1E, 0x3A, 0x8A),
                note_label: rgb(0x47, 0x55, 0x69),
                dark_base: (0xF8, 0xFA, 0xFC),
            },
        }
    }
}

} // verus!
