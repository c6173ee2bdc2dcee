//! Resolving the active palette: which darkness applies, which colour theme
//! is drawn, what the native window appearance is forced to, and the
//! base colours of every non-Insulator colour theme.

use vstd::prelude::*;
use crate::theme::{ColorTheme, SystemAppearance, ThemePreference, WindowStyle, default_theme_for, theme_is_dark};

verus! {

/// Whether a preference resolves to dark under a system appearance.
pub open spec fn preference_is_dark(preference: ThemePreference, system: SystemAppearance) -> bool {
    match preference {
        ThemePreference::System => system is Dark || system is VibrantDark,
        ThemePreference::Light => false,
        ThemePreference::Dark => true,
    }
}

/// The native appearance a preference forces: `None` follows the system.
pub open spec fn preference_override(preference: ThemePreference) -> Option<bool> {
    match preference {
        ThemePreference::System => None,
        ThemePreference::Light => Some(false),
        ThemePreference::Dark => Some(true),
    }
}

/// The outcome of applying the theme settings to a window.
#[derive(Clone, Copy, Debug, PartialEq, Eq, Structural)]
pub struct ResolvedAppearance {
    /// Whether the palette is dark.
    pub is_dark: bool,
    /// The colour theme whose palette is drawn.
    pub color_theme: ColorTheme,
    /// The appearance forced on the native titlebar, menus and vibrancy;
    /// `None` follows the system.
    pub native_appearance: Option<bool>,
}

/// What applying `preference`, `color_theme` and `style` under `system` gives.
pub open spec fn resolved_appearance(
    preference: ThemePreference,
    color_theme: ColorTheme,
    style: WindowStyle,
    system: SystemAppearance,
) -> ResolvedAppearance {
    let glass = style is LiquidGlass;
    let is_dark = if glass { true } else { preference_is_dark(preference, system) };
    ResolvedAppearance {
        is_dark,
        color_theme: if theme_is_dark(color_theme) == is_dark { color_theme } else { default_theme_for(is_dark) },
        native_appearance: if glass { Some(true) } else { preference_override(preference) },
    }
}

pub fn resolves_to_dark(preference: ThemePreference, system: SystemAppearance) -> (r: bool)
    ensures
        r == preference_is_dark(preference, system),
{
    match preference {
        ThemePreference::System => matches!(system, SystemAppearance::Dark | SystemAppearance::VibrantDark),
        ThemePreference::Light => false,
        ThemePreference::Dark => true,
    }
}

pub fn native_override(preference: ThemePreference) -> (r: Option<bool>)
    ensures
        r == preference_override(preference),
{
    match preference {
        ThemePreference::System => None,
        ThemePreference::Light => Some(false),
        ThemePreference::Dark => Some(true),
    }
}

/// Resolve the theme settings for a window. Liquid Glass is always drawn
/// dark; a colour theme of the wrong darkness falls back to the Insulator
/// base theme of the right one.
pub fn resolve_appearance(
    preference: ThemePreference,
    color_theme: ColorTheme,
    style: WindowStyle,
    system: SystemAppearance,
) -> (r: ResolvedAppearance)
    ensures
        r == resolved_appearance(preference, color_theme, style, system),
        theme_is_dark(r.color_theme) == r.is_dark,
{
    let glass = style == WindowStyle::LiquidGlass;
    let override_preference = if glass { ThemePreference::Dark } else { preference };
    let native_appearance = native_override(override_preference);
    let is_dark = if glass { true } else { resolves_to_dark(preference, system) };
    let chosen = if color_theme.for_dark(is_dark) {
        color_theme
    } else {
        ColorTheme::default_for_dark(is_dark)
    };
    ResolvedAppearance { is_dark, color_theme: chosen, native_appearance }
}

/// Only Liquid Glass forces a window dark. Under every other style the
/// window takes the darkness asked for (Light is light, Dark is dark,
/// System follows a dark or vibrant-dark system appearance), forces the
/// native appearance only for an explicit Light or Dark, and keeps the
/// chosen colour theme when it has that darkness, else the Insulator base
/// theme of that darkness; the style itself changes nothing.
pub proof fn law_only_liquid_glass_forces_dark(
    preference: ThemePreference,
    color_theme: ColorTheme,
    style: WindowStyle,
    other_style: WindowStyle,
    system: SystemAppearance,
)
    requires
        !(style is LiquidGlass),
        !(other_style is LiquidGlass),
    ensures
        ({
            let r = resolved_appearance(preference, color_theme, style, system);
            let dark = preference is Dark || (preference is System && (system is Dark || system is VibrantDark));
            &&& r.is_dark == dark
            &&& preference is Light ==> !r.is_dark && r.native_appearance == Some(false)
            &&& preference is Dark ==> r.is_dark && r.native_appearance == Some(true)
            &&& preference is System ==> r.native_appearance is None
            &&& r.color_theme == color_theme || r.color_theme == (if dark {
                ColorTheme::InsulatorDark
            } else {
                ColorTheme::InsulatorLight
            })
            &&& theme_is_dark(color_theme) == dark ==> r.color_theme == color_theme
            &&& r == resolved_appearance(preference, color_theme, other_style, system)
        }),
{
}

/// A Liquid Glass window is always dark with a dark native appearance,
/// whatever is asked and whatever the system shows.
pub proof fn law_liquid_glass_is_always_dark(
    preference: ThemePreference,
    color_theme: ColorTheme,
    system: SystemAppearance,
)
    ensures
        ({
            let r = resolved_appearance(preference, color_theme, WindowStyle::LiquidGlass, system);
            &&& r.is_dark
            &&& r.native_appearance == Some(true)
            &&& r == resolved_appearance(ThemePreference::Dark, color_theme, WindowStyle::Solid, system)
        }),
{
}

/// The colour theme published at startup, before any window exists: the
/// Insulator base theme for the system appearance.
pub fn startup_color_theme(system: SystemAppearance) -> (r: ColorTheme)
    ensures
        r == default_theme_for(preference_is_dark(ThemePreference::System, system)),
{
    let dark = resolves_to_dark(ThemePreference::System, system);
    ColorTheme::default_for_dark(dark)
}

/// The drawn palette always has the resolved darkness, and settings that
/// already agree resolve to themselves: resolving the resolved theme again
/// gives the same result.
pub proof fn law_resolution_is_stable(
    preference: ThemePreference,
    color_theme: ColorTheme,
    style: WindowStyle,
    system: SystemAppearance,
)
    ensures
        ({
            let r = resolved_appearance(preference, color_theme, style, system);
            &&& theme_is_dark(r.color_theme) == r.is_dark
            &&& resolved_appearance(preference, r.color_theme, style, system) == r
        }),
{
}

/// An explicit Light or Dark preference does not depend on the system
/// appearance, and Liquid Glass is dark whatever is asked.
pub proof fn law_explicit_preference_ignores_system(
    preference: ThemePreference,
    color_theme: ColorTheme,
    style: WindowStyle,
    a: SystemAppearance,
    b: SystemAppearance,
)
    ensures
        !(preference is System) ==> resolved_appearance(preference, color_theme, style, a)
            == resolved_appearance(preference, color_theme, style, b),
        style is LiquidGlass ==> resolved_appearance(preference, color_theme, style, a).is_dark
            && resolved_appearance(preference, color_theme, style, a).native_appearance == Some(true),
{
}

/// The base colours of a colour theme, as `0xRRGGBB` values.
#[derive(Clone, Copy, Debug, PartialEq, Eq, Structural)]
pub struct ThemePalette {
    pub canvas: u32,
    pub surface: u32,
    pub raised: u32,
    pub text: u32,
    pub muted: u32,
    pub accent: u32,
    pub success: u32,
    pub warning: u32,
    pub danger: u32,
    pub is_dark: bool,
}

pub open spec fn pal(
    canvas: u32,
    surface: u32,
    raised: u32,
    text: u32,
    muted: u32,
    accent: u32,
    success: u32,
    warning: u32,
    danger: u32,
    is_dark: bool,
) -> ThemePalette {
    ThemePalette { canvas, surface, raised, text, muted, accent, success, warning, danger, is_dark }
}

/// The palette table. The two Insulator themes have hand-tuned palettes of
/// their own and no entry here.
pub open spec fn palette_of(theme: ColorTheme) -> Option<ThemePalette> {
    match theme {
        ColorTheme::InsulatorLight | ColorTheme::InsulatorDark => None,
        ColorTheme::CatppuccinLatte => Some(pal(0xfaf4ed, 0xfffaf3, 0xf2e9e1, 0x4c4f69, 0x6c6f85, 0x8839ef, 0x40a02b, 0xdf8e1d, 0xd20f39, false)),
        ColorTheme::CatppuccinFrappe => Some(pal(0x303446, 0x292c3c, 0x414559, 0xc6d0f5, 0x949cbb, 0xca9ee6, 0xa6d189, 0xe5c890, 0xe78284, true)),
        ColorTheme::CatppuccinMacchiato => Some(pal(0x24273a, 0x1e2030, 0x363a4f, 0xcad3f5, 0x939ab7, 0xc6a0f6, 0xa6da95, 0xeed49f, 0xed8796, true)),
        ColorTheme::CatppuccinMocha => Some(pal(0x1e1e2e, 0x181825, 0x313244, 0xcdd6f4, 0x9399b2, 0xcba6f7, 0xa6e3a1, 0xf9e2af, 0xf38ba8, true)),
        ColorTheme::TokyoNight => Some(pal(0x1a1b26, 0x16161e, 0x292e42, 0xc0caf5, 0xa9b1d6, 0x7aa2f7, 0x9ece6a, 0xe0af68, 0xf7768e, true)),
        ColorTheme::TokyoStorm => Some(pal(0x24283b, 0x1f2335, 0x2f3549, 0xc0caf5, 0xa9b1d6, 0x7aa2f7, 0x9ece6a, 0xe0af68, 0xf7768e, true)),
        ColorTheme::TokyoMoon => Some(pal(0x222436, 0x1e2030, 0x2d3045, 0xc8d3f5, 0xa9b1d6, 0x82aaff, 0xc3e88d, 0xffc777, 0xff757f, true)),
        ColorTheme::TokyoDay => Some(pal(0xe1e2e7, 0xd5d6db, 0xc4c5ca, 0x3760bf, 0x52648a, 0x2e7de9, 0x587539, 0x8c6c3e, 0xf52a65, false)),
        ColorTheme::RosePine => Some(pal(0x191724, 0x1f1d2e, 0x26233a, 0xe0def4, 0x908caa, 0x9ccfd8, 0x31748f, 0xf6c177, 0xeb6f92, true)),
        ColorTheme::RosePineMoon => Some(pal(0x232136, 0x2a273f, 0x393552, 0xe0def4, 0x908caa, 0x9ccfd8, 0x3e8fb0, 0xf6c177, 0xeb6f92, true)),
        ColorTheme::RosePineDawn => Some(pal(0xfaf4ed, 0xfffaf3, 0xf2e9e1, 0x575279, 0x9893a5, 0x56949f, 0x286983, 0xea9d34, 0xb4637a, false)),
        ColorTheme::GruvboxDark => Some(pal(0x282828, 0x3c3836, 0x504945, 0xebdbb2, 0xa89984, 0x83a598, 0xb8bb26, 0xfabd2f, 0xfb4934, true)),
        ColorTheme::GruvboxLight => Some(pal(0xfbf1c7, 0xf2e5bc, 0xebdbb2, 0x3c3836, 0x7c6f64, 0x076678, 0x79740e, 0xb57614, 0x9d0006, false)),
        ColorTheme::Vesper => Some(pal(0x101010, 0x181818, 0x252525, 0xffffff, 0xa0a0a0, 0x99ffe4, 0x99ffe4, 0xffc799, 0xff8080, true)),
        ColorTheme::KanagawaWave => Some(pal(0x1f1f28, 0x16161d, 0x2a2a37, 0xdcd7ba, 0x727169, 0x7e9cd8, 0x98bb6c, 0xe6c384, 0xe46876, true)),
        ColorTheme::KanagawaLotus => Some(pal(0xf2ecbc, 0xe7dba0, 0xddd3a5, 0x545464, 0x8a8980, 0x4d699b, 0x6f894e, 0xcc6d00, 0xc84053, false)),
        ColorTheme::Nord => Some(pal(0x2e3440, 0x3b4252, 0x434c5e, 0xe5e9f0, 0x81a1c1, 0x88c0d0, 0xa3be8c, 0xebcb8b, 0xbf616a, true)),
        ColorTheme::Dracula => Some(pal(0x282a36, 0x21222c, 0x44475a, 0xf8f8f2, 0xa6a9c4, 0xbd93f9, 0x50fa7b, 0xf1fa8c, 0xff5555, true)),
        ColorTheme::OneDark => Some(pal(0x282c34, 0x21252b, 0x3e4451, 0xabb2bf, 0x9da5b4, 0x61afef, 0x98c379, 0xe5c07b, 0xe06c75, true)),
        ColorTheme::SolarizedDark => Some(pal(0x002b36, 0x073642, 0x0b4652, 0x839496, 0x93a1a1, 0x268bd2, 0x859900, 0xb58900, 0xdc322f, true)),
        ColorTheme::SolarizedLight => Some(pal(0xfdf6e3, 0xeee8d5, 0xe5dfc9, 0x657b83, 0x586e75, 0x268bd2, 0x859900, 0xb58900, 0xdc322f, false)),
        ColorTheme::EverforestDark => Some(pal(0x2d353b, 0x343f44, 0x3d484d, 0xd3c6aa, 0x859289, 0xa7c080, 0xa7c080, 0xdbbc7f, 0xe67e80, true)),
        ColorTheme::EverforestLight => Some(pal(0xfdf6e3, 0xf4f0d9, 0xe8e4cf, 0x5c6a72, 0x939f91, 0x8da101, 0x8da101, 0xdfa000, 0xf85552, false)),
    }
}

fn make_palette(
    canvas: u32,
    surface: u32,
    raised: u32,
    text: u32,
    muted: u32,
    accent: u32,
    success: u32,
    warning: u32,
    danger: u32,
    is_dark: bool,
) -> (r: ThemePalette)
    ensures
        r == pal(canvas, surface, raised, text, muted, accent, success, warning, danger, is_dark),
{
    ThemePalette { canvas, surface, raised, text, muted, accent, success, warning, danger, is_dark }
}

impl ColorTheme {
    /// The base colours of this theme; `None` for the two Insulator themes.
    pub fn palette(self) -> (r: Option<ThemePalette>)
        ensures
            r == palette_of(self),
    {
        match self {
            ColorTheme::InsulatorLight | ColorTheme::InsulatorDark => None,
            ColorTheme::CatppuccinLatte => Some(make_palette(0xfaf4ed, 0xfffaf3, 0xf2e9e1, 0x4c4f69, 0x6c6f85, 0x8839ef, 0x40a02b, 0xdf8e1d, 0xd20f39, false)),
            ColorTheme::CatppuccinFrappe => Some(make_palette(0x303446, 0x292c3c, 0x414559, 0xc6d0f5, 0x949cbb, 0xca9ee6, 0xa6d189, 0xe5c890, 0xe78284, true)),
            ColorTheme::CatppuccinMacchiato => Some(make_palette(0x24273a, 0x1e2030, 0x363a4f, 0xcad3f5, 0x939ab7, 0xc6a0f6, 0xa6da95, 0xeed49f, 0xed8796, true)),
            ColorTheme::CatppuccinMocha => Some(make_palette(0x1e1e2e, 0x181825, 0x313244, 0xcdd6f4, 0x9399b2, 0xcba6f7, 0xa6e3a1, 0xf9e2af, 0xf38ba8, true)),
            ColorTheme::TokyoNight => Some(make_palette(0x1a1b26, 0x16161e, 0x292e42, 0xc0caf5, 0xa9b1d6, 0x7aa2f7, 0x9ece6a, 0xe0af68, 0xf7768e, true)),
            ColorTheme::TokyoStorm => Some(make_palette(0x24283b, 0x1f2335, 0x2f3549, 0xc0caf5, 0xa9b1d6, 0x7aa2f7, 0x9ece6a, 0xe0af68, 0xf7768e, true)),
            ColorTheme::TokyoMoon => Some(make_palette(0x222436, 0x1e2030, 0x2d3045, 0xc8d3f5, 0xa9b1d6, 0x82aaff, 0xc3e88d, 0xffc777, 0xff757f, true)),
            ColorTheme::TokyoDay => Some(make_palette(0xe1e2e7, 0xd5d6db, 0xc4c5ca, 0x3760bf, 0x52648a, 0x2e7de9, 0x587539, 0x8c6c3e, 0xf52a65, false)),
            ColorTheme::RosePine => Some(make_palette(0x191724, 0x1f1d2e, 0x26233a, 0xe0def4, 0x908caa, 0x9ccfd8, 0x31748f, 0xf6c177, 0xeb6f92, true)),
            ColorTheme::RosePineMoon => Some(make_palette(0x232136, 0x2a273f, 0x393552, 0xe0def4, 0x908caa, 0x9ccfd8, 0x3e8fb0, 0xf6c177, 0xeb6f92, true)),
            ColorTheme::RosePineDawn => Some(make_palette(0xfaf4ed, 0xfffaf3, 0xf2e9e1, 0x575279, 0x9893a5, 0x56949f, 0x286983, 0xea9d34, 0xb4637a, false)),
            ColorTheme::GruvboxDark => Some(make_palette(0x282828, 0x3c3836, 0x504945, 0xebdbb2, 0xa89984, 0x83a598, 0xb8bb26, 0xfabd2f, 0xfb4934, true)),
            ColorTheme::GruvboxLight => Some(make_palette(0xfbf1c7, 0xf2e5bc, 0xebdbb2, 0x3c3836, 0x7c6f64, 0x076678, 0x79740e, 0xb57614, 0x9d0006, false)),
            ColorTheme::Vesper => Some(make_palette(0x101010, 0x181818, 0x252525, 0xffffff, 0xa0a0a0, 0x99ffe4, 0x99ffe4, 0xffc799, 0xff8080, true)),
            ColorTheme::KanagawaWave => Some(make_palette(0x1f1f28, 0x16161d, 0x2a2a37, 0xdcd7ba, 0x727169, 0x7e9cd8, 0x98bb6c, 0xe6c384, 0xe46876, true)),
            ColorTheme::KanagawaLotus => Some(make_palette(0xf2ecbc, 0xe7dba0, 0xddd3a5, 0x545464, 0x8a8980, 0x4d699b, 0x6f894e, 0xcc6d00, 0xc84053, false)),
            ColorTheme::Nord => Some(make_palette(0x2e3440, 0x3b4252, 0x434c5e, 0xe5e9f0, 0x81a1c1, 0x88c0d0, 0xa3be8c, 0xebcb8b, 0xbf616a, true)),
            ColorTheme::Dracula => Some(make_palette(0x282a36, 0x21222c, 0x44475a, 0xf8f8f2, 0xa6a9c4, 0xbd93f9, 0x50fa7b, 0xf1fa8c, 0xff5555, true)),
            ColorTheme::OneDark => Some(make_palette(0x282c34, 0x21252b, 0x3e4451, 0xabb2bf, 0x9da5b4, 0x61afef, 0x98c379, 0xe5c07b, 0xe06c75, true)),
            ColorTheme::SolarizedDark => Some(make_palette(0x002b36, 0x073642, 0x0b4652, 0x839496, 0x93a1a1, 0x268bd2, 0x859900, 0xb58900, 0xdc322f, true)),
            ColorTheme::SolarizedLight => Some(make_palette(0xfdf6e3, 0xeee8d5, 0xe5dfc9, 0x657b83, 0x586e75, 0x268bd2, 0x859900, 0xb58900, 0xdc322f, false)),
            ColorTheme::EverforestDark => Some(make_palette(0x2d353b, 0x343f44, 0x3d484d, 0xd3c6aa, 0x859289, 0xa7c080, 0xa7c080, 0xdbbc7f, 0xe67e80, true)),
            ColorTheme::EverforestLight => Some(make_palette(0xfdf6e3, 0xf4f0d9, 0xe8e4cf, 0x5c6a72, 0x939f91, 0x8da101, 0x8da101, 0xdfa000, 0xf85552, false)),
        }
    }
}

/// The colour of elevated surfaces (cards, popovers): the raised colour,
/// except Dracula's, whose raised grey is replaced by its canvas.
pub open spec fn palette_elevated(p: ThemePalette) -> u32 {
    if p.is_dark && p.raised == 0x44475a { 0x282a36 } else { p.raised }
}

/// The colour of inset wells: the canvas in dark palettes, the raised
/// colour in light ones.
pub open spec fn palette_inset(p: ThemePalette) -> u32 {
    if p.is_dark { p.canvas } else { p.raised }
}

impl ThemePalette {
    pub fn elevated(&self) -> (r: u32)
        ensures
            r == palette_elevated(*self),
    {
        if self.is_dark && self.raised == 0x44475a { 0x282a36 } else { self.raised }
    }

    pub fn inset(&self) -> (r: u32)
        ensures
            r == palette_inset(*self),
    {
        if self.is_dark { self.canvas } else { self.raised }
    }
}

/// Every palette in the table has the darkness of the theme it belongs to,
/// so a theme picked for its darkness is drawn with that darkness.
pub proof fn law_palette_darkness_matches_theme(theme: ColorTheme)
    ensures
        palette_of(theme) matches Some(p) ==> p.is_dark == theme_is_dark(theme),
        palette_of(theme) is None <==> (theme is InsulatorLight || theme is InsulatorDark),
{
}

/// The brightness of a `0xRRGGBB` colour: the sum of its three channels,
/// from 0 (black) to 765 (white); mid grey `0x808080` is 384.
pub open spec fn brightness(c: u32) -> int {
    (c as int / 65536) % 256 + (c as int / 256) % 256 + c as int % 256
}

/// A dark palette draws light text on dark backgrounds, a light palette
/// dark text on light backgrounds: in a dark palette the canvas, surface and
/// raised colours are darker than mid grey and the text lighter, and the
/// other way round in a light one.
pub proof fn law_palette_contrast(theme: ColorTheme)
    ensures
        palette_of(theme) matches Some(p) ==> {
            &&& p.is_dark ==> brightness(p.canvas) < 384 && brightness(p.surface) < 384
                && brightness(p.raised) < 384 && brightness(p.text) > 384
            &&& !p.is_dark ==> brightness(p.canvas) > 384 && brightness(p.surface) > 384
                && brightness(p.raised) > 384 && brightness(p.text) < 384
        },
{
}

/// The red, green and blue channels of a `0xRRGGBB` colour.
pub open spec fn channels(c: u32) -> (int, int, int) {
    ((c as int / 65536) % 256, (c as int / 256) % 256, c as int % 256)
}

/// The status colours read as what they mean in every palette: danger is
/// red (red is its strongest channel), warning is amber (red and green both
/// above blue), and muted text differs from the text colour.
pub proof fn law_palette_status_colours(theme: ColorTheme)
    ensures
        palette_of(theme) matches Some(p) ==> {
            &&& channels(p.danger).0 > channels(p.danger).1 && channels(p.danger).0 > channels(p.danger).2
            &&& channels(p.warning).0 > channels(p.warning).2 && channels(p.warning).1 > channels(p.warning).2
            &&& p.muted != p.text
        },
{
}

} // verus!
