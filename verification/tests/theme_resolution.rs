use insulator::appearance::{
    native_override, resolve_appearance, resolves_to_dark, startup_color_theme, ResolvedAppearance,
};
use insulator::theme::{ColorTheme, SystemAppearance, ThemePreference, WindowStyle};

fn all_color_themes() -> Vec<ColorTheme> {
    vec![
        ColorTheme::InsulatorLight, ColorTheme::InsulatorDark,
        ColorTheme::CatppuccinLatte, ColorTheme::CatppuccinFrappe, ColorTheme::CatppuccinMacchiato,
        ColorTheme::CatppuccinMocha, ColorTheme::TokyoNight, ColorTheme::TokyoStorm, ColorTheme::TokyoMoon,
        ColorTheme::TokyoDay, ColorTheme::RosePine, ColorTheme::RosePineMoon, ColorTheme::RosePineDawn,
        ColorTheme::GruvboxDark, ColorTheme::GruvboxLight, ColorTheme::Vesper, ColorTheme::KanagawaWave,
        ColorTheme::KanagawaLotus, ColorTheme::Nord, ColorTheme::Dracula, ColorTheme::OneDark,
        ColorTheme::SolarizedDark, ColorTheme::SolarizedLight, ColorTheme::EverforestDark,
        ColorTheme::EverforestLight,
    ]
}

#[test]
fn labels_match_the_settings_names() {
    assert_eq!(WindowStyle::Solid.label(), "Solid");
    assert_eq!(WindowStyle::LiquidGlass.label(), "Liquid Glass");
    assert_eq!(WindowStyle::Transparent.label(), "Transparent");
    assert_eq!(ColorTheme::CatppuccinFrappe.label(), "Catppuccin Frappé");
    assert_eq!(ColorTheme::RosePineDawn.label(), "Rosé Pine Dawn");
    assert_eq!(ColorTheme::OneDark.label(), "One Dark");
    assert_eq!(ThemePreference::Dark.label(|key: &str| format!("<{key}>")), "<settings.theme_dark>");
    assert_eq!(ThemePreference::Light.label(|key: &str| key.to_string()), "settings.theme_light");
    assert_eq!(ThemePreference::System.label_key(), "settings.theme_system");
}

#[test]
fn eight_themes_are_light() {
    let light: Vec<&str> = all_color_themes()
        .into_iter()
        .filter(|theme| !theme.is_dark())
        .map(|theme| theme.label())
        .collect();
    assert_eq!(
        light,
        vec![
            "Insulator Light", "Catppuccin Latte", "Tokyo Day", "Rosé Pine Dawn", "Gruvbox Light",
            "Kanagawa Lotus", "Solarized Light", "Everforest Light"
        ]
    );
    assert!(ColorTheme::Nord.for_dark(true));
    assert!(!ColorTheme::Nord.for_dark(false));
    assert_eq!(ColorTheme::default_for_dark(true), ColorTheme::InsulatorDark);
    assert_eq!(ColorTheme::default_for_dark(false), ColorTheme::InsulatorLight);
}

#[test]
fn defaults_are_system_solid_and_insulator_dark() {
    assert_eq!(ThemePreference::default(), ThemePreference::System);
    assert_eq!(WindowStyle::default(), WindowStyle::Solid);
    assert_eq!(ColorTheme::default(), ColorTheme::InsulatorDark);
}

#[test]
fn preferences_resolve_against_the_system_appearance() {
    assert!(resolves_to_dark(ThemePreference::System, SystemAppearance::VibrantDark));
    assert!(!resolves_to_dark(ThemePreference::System, SystemAppearance::VibrantLight));
    assert!(resolves_to_dark(ThemePreference::Dark, SystemAppearance::Light));
    assert!(!resolves_to_dark(ThemePreference::Light, SystemAppearance::Dark));
    assert_eq!(native_override(ThemePreference::System), None);
    assert_eq!(native_override(ThemePreference::Light), Some(false));
    assert_eq!(startup_color_theme(SystemAppearance::Dark), ColorTheme::InsulatorDark);
    assert_eq!(startup_color_theme(SystemAppearance::Light), ColorTheme::InsulatorLight);
}

#[test]
fn a_theme_of_the_wrong_darkness_falls_back_to_the_base_theme() {
    assert_eq!(
        resolve_appearance(ThemePreference::System, ColorTheme::Nord, WindowStyle::Solid, SystemAppearance::Light),
        ResolvedAppearance { is_dark: false, color_theme: ColorTheme::InsulatorLight, native_appearance: None }
    );
    assert_eq!(
        resolve_appearance(ThemePreference::System, ColorTheme::Nord, WindowStyle::Solid, SystemAppearance::Dark),
        ResolvedAppearance { is_dark: true, color_theme: ColorTheme::Nord, native_appearance: None }
    );
    assert_eq!(
        resolve_appearance(ThemePreference::Dark, ColorTheme::TokyoDay, WindowStyle::Image, SystemAppearance::Light),
        ResolvedAppearance { is_dark: true, color_theme: ColorTheme::InsulatorDark, native_appearance: Some(true) }
    );
}

#[test]
fn liquid_glass_is_always_dark() {
    for system in [SystemAppearance::Light, SystemAppearance::Dark] {
        let resolved = resolve_appearance(
            ThemePreference::Light,
            ColorTheme::GruvboxLight,
            WindowStyle::LiquidGlass,
            system,
        );
        assert_eq!(
            resolved,
            ResolvedAppearance { is_dark: true, color_theme: ColorTheme::InsulatorDark, native_appearance: Some(true) }
        );
    }
}

#[test]
fn resolution_is_stable() {
    for theme in all_color_themes() {
        for style in [WindowStyle::Solid, WindowStyle::LiquidGlass, WindowStyle::Image, WindowStyle::Transparent] {
            for preference in [ThemePreference::System, ThemePreference::Light, ThemePreference::Dark] {
                let first = resolve_appearance(preference, theme, style, SystemAppearance::Dark);
                assert_eq!(first.color_theme.is_dark(), first.is_dark);
                let again = resolve_appearance(preference, first.color_theme, style, SystemAppearance::Dark);
                assert_eq!(again, first);
            }
        }
    }
}

#[test]
fn palettes_follow_the_theme_darkness() {
    for theme in all_color_themes() {
        match theme.palette() {
            Some(palette) => assert_eq!(palette.is_dark, theme.is_dark()),
            None => assert!(matches!(theme, ColorTheme::InsulatorLight | ColorTheme::InsulatorDark)),
        }
    }
    let nord = ColorTheme::Nord.palette().unwrap();
    assert_eq!(nord.canvas, 0x2e3440);
    assert_eq!(nord.elevated(), 0x434c5e);
    assert_eq!(nord.inset(), 0x2e3440);
    let dracula = ColorTheme::Dracula.palette().unwrap();
    assert_eq!(dracula.elevated(), 0x282a36);
    let latte = ColorTheme::CatppuccinLatte.palette().unwrap();
    assert_eq!(latte.inset(), 0xf2e9e1);
    assert_eq!(latte.accent, 0x8839ef);
}

#[test]
fn every_list_names_each_value_once() {
    assert_eq!(ThemePreference::ALL, [ThemePreference::System, ThemePreference::Light, ThemePreference::Dark]);
    assert_eq!(
        WindowStyle::ALL,
        [WindowStyle::Solid, WindowStyle::LiquidGlass, WindowStyle::Image, WindowStyle::Transparent]
    );
    assert_eq!(ColorTheme::ALL.to_vec(), all_color_themes());
}

#[test]
fn color_theme_labels_are_non_empty_and_distinct() {
    let labels: Vec<&str> = ColorTheme::ALL.iter().map(|theme| theme.label()).collect();
    for (i, a) in labels.iter().enumerate() {
        assert!(!a.is_empty());
        for b in &labels[i + 1..] {
            assert_ne!(a, b);
        }
    }
}
