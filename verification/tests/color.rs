use sound_player::color::{rgb, Rgb, Theme, ThemePreset};

#[test]
fn cycling_visits_every_theme_and_comes_back() {
    let mut t = ThemePreset::Emerald;
    for &expected in &ThemePreset::ALL {
        assert_eq!(t, expected);
        t = t.next();
    }
    assert_eq!(t, ThemePreset::Emerald);
}

#[test]
fn all_themes_produce_valid_palettes() {
    for &preset in &ThemePreset::ALL {
        let theme = preset.theme();
        assert_eq!(theme.name, preset.name());
        assert!(!preset.name().is_empty());
    }
}

#[test]
fn the_default_theme_is_emerald() {
    assert_eq!(ThemePreset::default(), ThemePreset::Emerald);
    assert_eq!(Theme::default(), ThemePreset::Emerald.theme());
}

#[test]
fn palettes_carry_their_own_colours() {
    let emerald = Theme::from_preset(ThemePreset::Emerald);
    assert_eq!(emerald.border, rgb(0x22, 0xC5, 0x5E));
    assert_eq!(emerald.dark_base, (0x03, 0x07, 0x12));
    let mono = Theme::from_preset(ThemePreset::Mono);
    assert_eq!(mono.highlight, Rgb { r: 0xFF, g: 0xFF, b: 0xFF });
    assert_eq!(mono.name, "mono");
    let sunset = ThemePreset::Sunset.theme();
    assert_eq!(sunset.paused, rgb(0xEF, 0x44, 0x44));
}

#[test]
fn seven_presses_of_c_come_back_through_light() {
    let mut t = ThemePreset::Emerald;
    let mut seen = Vec::new();
    for _ in 0..7 {
        seen.push(t);
        t = t.next();
    }
    assert_eq!(t, ThemePreset::Emerald);
    assert_eq!(seen[6], ThemePreset::Light);
    for i in 0..7 {
        for j in 0..i {
            assert_ne!(seen[i], seen[j]);
        }
    }
    let light = ThemePreset::Light.theme();
    assert_eq!(light.name, "light");
    assert_eq!(light.dark_base, (0xF8, 0xFA, 0xFC));
}
