//! Theme preference, window style and colour theme, and how the active
//! palette is resolved from them and from the system appearance.

use vstd::prelude::*;

verus! {

/// Which appearance the user asked for.
#[derive(Clone, Copy, Debug, PartialEq, Eq, Structural)]
pub enum ThemePreference {
    System,
    Light,
    Dark,
}

/// How the main window is drawn.
#[derive(Clone, Copy, Debug, PartialEq, Eq, Structural)]
pub enum WindowStyle {
    Solid,
    LiquidGlass,
    Image,
    Transparent,
}

/// The selectable colour themes.
#[derive(Clone, Copy, Debug, PartialEq, Eq, Structural)]
pub enum ColorTheme {
    InsulatorLight,
    InsulatorDark,
    CatppuccinLatte,
    CatppuccinFrappe,
    CatppuccinMacchiato,
    CatppuccinMocha,
    TokyoNight,
    TokyoStorm,
    TokyoMoon,
    TokyoDay,
    RosePine,
    RosePineMoon,
    RosePineDawn,
    GruvboxDark,
    GruvboxLight,
    Vesper,
    KanagawaWave,
    KanagawaLotus,
    Nord,
    Dracula,
    OneDark,
    SolarizedDark,
    SolarizedLight,
    EverforestDark,
    EverforestLight,
}

/// The appearance the operating system reports for a window.
#[derive(Clone, Copy, Debug, PartialEq, Eq, Structural)]
pub enum SystemAppearance {
    Light,
    VibrantLight,
    Dark,
    VibrantDark,
}

impl Default for ThemePreference {
    fn default() -> (r: Self)
        ensures
            r == ThemePreference::System,
    {
        ThemePreference::System
    }
}

impl Default for WindowStyle {
    fn default() -> (r: Self)
        ensures
            r == WindowStyle::Solid,
    {
        WindowStyle::Solid
    }
}

impl Default for ColorTheme {
    fn default() -> (r: Self)
        ensures
            r == ColorTheme::InsulatorDark,
    {
        ColorTheme::InsulatorDark
    }
}

/// The display name of a window style.
pub open spec fn window_style_label(style: WindowStyle) -> Seq<char> {
    match style {
        WindowStyle::Solid => "Solid"@,
        WindowStyle::LiquidGlass => "Liquid Glass"@,
        WindowStyle::Image => "Image"@,
        WindowStyle::Transparent => "Transparent"@,
    }
}

/// Whether a colour theme is one of the dark ones: all but the eight light
/// themes.
pub open spec fn theme_is_dark(theme: ColorTheme) -> bool {
    !(theme is InsulatorLight || theme is CatppuccinLatte || theme is TokyoDay
        || theme is RosePineDawn || theme is GruvboxLight || theme is KanagawaLotus
        || theme is SolarizedLight || theme is EverforestLight)
}

/// The display name of a colour theme.
pub open spec fn color_theme_label(theme: ColorTheme) -> Seq<char> {
    match theme {
        ColorTheme::InsulatorLight => "Insulator Light"@,
        ColorTheme::InsulatorDark => "Insulator Dark"@,
        ColorTheme::CatppuccinLatte => "Catppuccin Latte"@,
        ColorTheme::CatppuccinFrappe => "Catppuccin Frapp\u{e9}"@,
        ColorTheme::CatppuccinMacchiato => "Catppuccin Macchiato"@,
        ColorTheme::CatppuccinMocha => "Catppuccin Mocha"@,
        ColorTheme::TokyoNight => "Tokyo Night"@,
        ColorTheme::TokyoStorm => "Tokyo Storm"@,
        ColorTheme::TokyoMoon => "Tokyo Moon"@,
        ColorTheme::TokyoDay => "Tokyo Day"@,
        ColorTheme::RosePine => "Ros\u{e9} Pine"@,
        ColorTheme::RosePineMoon => "Ros\u{e9} Pine Moon"@,
        ColorTheme::RosePineDawn => "Ros\u{e9} Pine Dawn"@,
        ColorTheme::GruvboxDark => "Gruvbox Dark"@,
        ColorTheme::GruvboxLight => "Gruvbox Light"@,
        ColorTheme::Vesper => "Vesper"@,
        ColorTheme::KanagawaWave => "Kanagawa Wave"@,
        ColorTheme::KanagawaLotus => "Kanagawa Lotus"@,
        ColorTheme::Nord => "Nord"@,
        ColorTheme::Dracula => "Dracula"@,
        ColorTheme::OneDark => "One Dark"@,
        ColorTheme::SolarizedDark => "Solarized Dark"@,
        ColorTheme::SolarizedLight => "Solarized Light"@,
        ColorTheme::EverforestDark => "Everforest Dark"@,
        ColorTheme::EverforestLight => "Everforest Light"@,
    }
}

/// Every colour theme has a non-empty display name, and no two themes share
/// one.
pub proof fn law_color_theme_labels_are_distinct(a: ColorTheme, b: ColorTheme)
    ensures
        color_theme_label(a).len() > 0,
        a != b ==> color_theme_label(a) != color_theme_label(b),
{
    reveal_strlit("Insulator Light");
    reveal_strlit("Insulator Dark");
    reveal_strlit("Catppuccin Latte");
    reveal_strlit("Catppuccin Frapp\u{e9}");
    reveal_strlit("Catppuccin Macchiato");
    reveal_strlit("Catppuccin Mocha");
    reveal_strlit("Tokyo Night");
    reveal_strlit("Tokyo Storm");
    reveal_strlit("Tokyo Moon");
    reveal_strlit("Tokyo Day");
    reveal_strlit("Ros\u{e9} Pine");
    reveal_strlit("Ros\u{e9} Pine Moon");
    reveal_strlit("Ros\u{e9} Pine Dawn");
    reveal_strlit("Gruvbox Dark");
    reveal_strlit("Gruvbox Light");
    reveal_strlit("Vesper");
    reveal_strlit("Kanagawa Wave");
    reveal_strlit("Kanagawa Lotus");
    reveal_strlit("Nord");
    reveal_strlit("Dracula");
    reveal_strlit("One Dark");
    reveal_strlit("Solarized Dark");
    reveal_strlit("Solarized Light");
    reveal_strlit("Everforest Dark");
    reveal_strlit("Everforest Light");
    let la = color_theme_label(a);
    let lb = color_theme_label(b);
    if a != b && la == lb {
        assert(la[0] == lb[0]);
        assert(la[la.len() - 1] == lb[lb.len() - 1]);
        if la.len() > 11 {
            assert(la[11] == lb[11]);
        }
    }
}

/// The base theme for a darkness.
pub open spec fn default_theme_for(dark: bool) -> ColorTheme {
    if dark {
        ColorTheme::InsulatorDark
    } else {
        ColorTheme::InsulatorLight
    }
}

/// The message key that names the localized label of a theme preference.
pub open spec fn preference_label_key(preference: ThemePreference) -> Seq<char> {
    match preference {
        ThemePreference::System => "settings.theme_system"@,
        ThemePreference::Light => "settings.theme_light"@,
        ThemePreference::Dark => "settings.theme_dark"@,
    }
}

impl WindowStyle {
    /// Every window style, in the order the settings list them.
    pub const ALL: [WindowStyle; 4] = [WindowStyle::Solid, WindowStyle::LiquidGlass, WindowStyle::Image, WindowStyle::Transparent];

    pub fn label(self) -> (r: &'static str)
        ensures
            r@ == window_style_label(self),
    {
        match self {
            WindowStyle::Solid => "Solid",
            WindowStyle::LiquidGlass => "Liquid Glass",
            WindowStyle::Image => "Image",
            WindowStyle::Transparent => "Transparent",
        }
    }
}

impl ColorTheme {
    /// Every colour theme, in the order the settings list them.
    pub const ALL: [ColorTheme; 25] = [
        ColorTheme::InsulatorLight, ColorTheme::InsulatorDark,
        ColorTheme::CatppuccinLatte, ColorTheme::CatppuccinFrappe, ColorTheme::CatppuccinMacchiato,
        ColorTheme::CatppuccinMocha, ColorTheme::TokyoNight, ColorTheme::TokyoStorm, ColorTheme::TokyoMoon,
        ColorTheme::TokyoDay, ColorTheme::RosePine, ColorTheme::RosePineMoon, ColorTheme::RosePineDawn,
        ColorTheme::GruvboxDark, ColorTheme::GruvboxLight, ColorTheme::Vesper, ColorTheme::KanagawaWave,
        ColorTheme::KanagawaLotus, ColorTheme::Nord, ColorTheme::Dracula, ColorTheme::OneDark,
        ColorTheme::SolarizedDark, ColorTheme::SolarizedLight, ColorTheme::EverforestDark,
        ColorTheme::EverforestLight,
    ];

    pub fn is_dark(self) -> (r: bool)
        ensures
            r == theme_is_dark(self),
    {
        !matches!(self, ColorTheme::InsulatorLight | ColorTheme::CatppuccinLatte | ColorTheme::TokyoDay
            | ColorTheme::RosePineDawn | ColorTheme::GruvboxLight | ColorTheme::KanagawaLotus
            | ColorTheme::SolarizedLight | ColorTheme::EverforestLight)
    }

    pub fn label(self) -> (r: &'static str)
        ensures
            r@ == color_theme_label(self),
    {
        match self {
            ColorTheme::InsulatorLight => "Insulator Light",
            ColorTheme::InsulatorDark => "Insulator Dark",
            ColorTheme::CatppuccinLatte => "Catppuccin Latte",
            ColorTheme::CatppuccinFrappe => "Catppuccin Frapp\u{e9}",
            ColorTheme::CatppuccinMacchiato => "Catppuccin Macchiato",
            ColorTheme::CatppuccinMocha => "Catppuccin Mocha",
            ColorTheme::TokyoNight => "Tokyo Night",
            ColorTheme::TokyoStorm => "Tokyo Storm",
            ColorTheme::TokyoMoon => "Tokyo Moon",
            ColorTheme::TokyoDay => "Tokyo Day",
            ColorTheme::RosePine => "Ros\u{e9} Pine",
            ColorTheme::RosePineMoon => "Ros\u{e9} Pine Moon",
            ColorTheme::RosePineDawn => "Ros\u{e9} Pine Dawn",
            ColorTheme::GruvboxDark => "Gruvbox Dark",
            ColorTheme::GruvboxLight => "Gruvbox Light",
            ColorTheme::Vesper => "Vesper",
            ColorTheme::KanagawaWave => "Kanagawa Wave",
            ColorTheme::KanagawaLotus => "Kanagawa Lotus",
            ColorTheme::Nord => "Nord",
            ColorTheme::Dracula => "Dracula",
            ColorTheme::OneDark => "One Dark",
            ColorTheme::SolarizedDark => "Solarized Dark",
            ColorTheme::SolarizedLight => "Solarized Light",
            ColorTheme::EverforestDark => "Everforest Dark",
            ColorTheme::EverforestLight => "Everforest Light",
        }
    }

    /// Whether this theme belongs to the requested darkness.
    pub fn for_dark(self, dark: bool) -> (r: bool)
        ensures
            r == (theme_is_dark(self) == dark),
    {
        self.is_dark() == dark
    }

    pub fn default_for_dark(dark: bool) -> (r: Self)
        ensures
            r == default_theme_for(dark),
    {
        if dark {
            ColorTheme::InsulatorDark
        } else {
            ColorTheme::InsulatorLight
        }
    }
}

impl ThemePreference {
    /// Every theme preference, in the order the settings list them.
    pub const ALL: [ThemePreference; 3] = [ThemePreference::System, ThemePreference::Light, ThemePreference::Dark];

    /// The message key of this preference's label.
    pub fn label_key(self) -> (r: &'static str)
        ensures
            r@ == preference_label_key(self),
    {
        match self {
            ThemePreference::System => "settings.theme_system",
            ThemePreference::Light => "settings.theme_light",
            ThemePreference::Dark => "settings.theme_dark",
        }
    }

    /// The label of this preference: its message key looked up once through
    /// `translate`, the application's message catalogue.
    pub fn label<F: Fn(&str) -> String>(self, translate: F) -> (r: String)
        requires
            forall|k: &str| #[trigger] translate.requires((k,)),
        ensures
            exists|k: &str| k@ == preference_label_key(self) && #[trigger] translate.ensures((k,), r),
    {
        let key = self.label_key();
        translate(key)
    }
}

} // verus!
