//! The colour themes of the window.
use vstd::prelude::*;

verus! {

/// The selectable themes.
#[derive(Clone, Copy, PartialEq, Eq, Debug)]
pub enum ThemeMode {
    Dark,
    Light,
    Midnight,
    Nord,
}

/// An opaque colour.
#[derive(Clone, Copy, PartialEq, Eq, Debug)]
pub struct Rgb {
    pub r: u8,
    pub g: u8,
    pub b: u8,
}

/// The colour with the given channels.
pub open spec fn rgb(r: u8, g: u8, b: u8) -> Rgb {
    Rgb { r, g, b }
}

/// The colours of a theme.
#[derive(Clone, Copy, PartialEq, Eq, Debug)]
pub struct Theme {
    pub bg_primary: Rgb,
    pub bg_secondary: Rgb,
    pub bg_card: Rgb,
    pub bg_elevated: Rgb,
    pub accent: Rgb,
    pub text_primary: Rgb,
    pub text_secondary: Rgb,
    pub text_tertiary: Rgb,
    pub success: Rgb,
    pub warning: Rgb,
    pub danger: Rgb,
    pub border: Rgb,
}

/// The default dark palette.
pub open spec fn dark_palette() -> Theme {
    Theme {
        bg_primary: rgb(17, 17, 19),
        bg_secondary: rgb(22, 22, 24),
        bg_card: rgb(27, 27, 30),
        bg_elevated: rgb(35, 35, 38),
        accent: rgb(88, 101, 242),
        text_primary: rgb(245, 245, 247),
        text_secondary: rgb(163, 163, 168),
        text_tertiary: rgb(115, 115, 120),
        success: rgb(52, 211, 153),
        warning: rgb(251, 191, 36),
        danger: rgb(248, 113, 113),
        border: rgb(45, 45, 48),
    }
}

/// A near-black palette with a sky-blue accent.
pub open spec fn midnight_palette() -> Theme {
    Theme {
        bg_primary: rgb(10, 12, 16),
        bg_secondary: rgb(16, 18, 24),
        bg_card: rgb(20, 22, 28),
        bg_elevated: rgb(26, 28, 36),
        accent: rgb(56, 189, 248),
        text_primary: rgb(248, 250, 252),
        text_secondary: rgb(148, 163, 184),
        text_tertiary: rgb(100, 116, 139),
        success: rgb(16, 185, 129),
        warning: rgb(245, 158, 11),
        danger: rgb(248, 113, 113),
        border: rgb(38, 42, 54),
    }
}

/// The Nord palette.
pub open spec fn nord_palette() -> Theme {
    Theme {
        bg_primary: rgb(46, 52, 64),
        bg_secondary: rgb(59, 66, 82),
        bg_card: rgb(67, 76, 94),
        bg_elevated: rgb(76, 86, 106),
        accent: rgb(136, 192, 208),
        text_primary: rgb(236, 239, 244),
        text_secondary: rgb(216, 222, 233),
        text_tertiary: rgb(143, 157, 177),
        success: rgb(163, 190, 140),
        warning: rgb(235, 203, 139),
        danger: rgb(191, 97, 106),
        border: rgb(81, 91, 112),
    }
}

/// A light palette.
pub open spec fn light_palette() -> Theme {
    Theme {
        bg_primary: rgb(250, 250, 252),
        bg_secondary: rgb(241, 243, 247),
        bg_card: rgb(255, 255, 255),
        bg_elevated: rgb(248, 249, 251),
        accent: rgb(79, 70, 229),
        text_primary: rgb(17, 24, 39),
        text_secondary: rgb(75, 85, 99),
        text_tertiary: rgb(156, 163, 175),
        success: rgb(16, 185, 129),
        warning: rgb(245, 158, 11),
        danger: rgb(239, 68, 68),
        border: rgb(229, 231, 235),
    }
}

/// The palette of a theme.
pub open spec fn palette(mode: ThemeMode) -> Theme {
    match mode {
        ThemeMode::Dark => dark_palette(),
        ThemeMode::Light => light_palette(),
        ThemeMode::Midnight => midnight_palette(),
        ThemeMode::Nord => nord_palette(),
    }
}

impl Theme {
    /// The palette of `mode`.
    pub fn from_mode(mode: ThemeMode) -> (t: Theme)
        ensures
            t == palette(mode),
    {
        match mode {
            ThemeMode::Dark => Self::dark(),
            ThemeMode::Light => Self::light(),
            ThemeMode::Midnight => Self::midnight(),
            ThemeMode::Nord => Self::nord(),
        }
    }

    /// The default dark palette.
    pub fn dark() -> (t: Theme)
        ensures
            t == dark_palette(),
    {
        Theme {
            bg_primary: Rgb { r: 17, g: 17, b: 19 },
            bg_secondary: Rgb { r: 22, g: 22, b: 24 },
            bg_card: Rgb { r: 27, g: 27, b: 30 },
            bg_elevated: Rgb { r: 35, g: 35, b: 38 },
            accent: Rgb { r: 88, g: 101, b: 242 },
            text_primary: Rgb { r: 245, g: 245, b: 247 },
            text_secondary: Rgb { r: 163, g: 163, b: 168 },
            text_tertiary: Rgb { r: 115, g: 115, b: 120 },
            success: Rgb { r: 52, g: 211, b: 153 },
            warning: Rgb { r: 251, g: 191, b: 36 },
            danger: Rgb { r: 248, g: 113, b: 113 },
            border: Rgb { r: 45, g: 45, b: 48 },
        }
    }

    /// A near-black palette with a sky-blue accent.
    pub fn midnight() -> (t: Theme)
        ensures
            t == midnight_palette(),
    {
        Theme {
            bg_primary: Rgb { r: 10, g: 12, b: 16 },
            bg_secondary: Rgb { r: 16, g: 18, b: 24 },
            bg_card: Rgb { r: 20, g: 22, b: 28 },
            bg_elevated: Rgb { r: 26, g: 28, b: 36 },
            accent: Rgb { r: 56, g: 189, b: 248 },
            text_primary: Rgb { r: 248, g: 250, b: 252 },
            text_secondary: Rgb { r: 148, g: 163, b: 184 },
            text_tertiary: Rgb { r: 100, g: 116, b: 139 },
            success: Rgb { r: 16, g: 185, b: 129 },
            warning: Rgb { r: 245, g: 158, b: 11 },
            danger: Rgb { r: 248, g: 113, b: 113 },
            border: Rgb { r: 38, g: 42, b: 54 },
        }
    }

    /// The Nord palette.
    pub fn nord() -> (t: Theme)
        ensures
            t == nord_palette(),
    {
        Theme {
            bg_primary: Rgb { r: 46, g: 52, b: 64 },
            bg_secondary: Rgb { r: 59, g: 66, b: 82 },
            bg_card: Rgb { r: 67, g: 76, b: 94 },
            bg_elevated: Rgb { r: 76, g: 86, b: 106 },
            accent: Rgb { r: 136, g: 192, b: 208 },
            text_primary: Rgb { r: 236, g: 239, b: 244 },
            text_secondary: Rgb { r: 216, g: 222, b: 233 },
            text_tertiary: Rgb { r: 143, g: 157, b: 177 },
            success: Rgb { r: 163, g: 190, b: 140 },
            warning: Rgb { r: 235, g: 203, b: 139 },
            danger: Rgb { r: 191, g: 97, b: 106 },
            border: Rgb { r: 81, g: 91, b: 112 },
        }
    }

    /// A light palette.
    pub fn light() -> (t: Theme)
        ensures
            t == light_palette(),
    {
        Theme {
            bg_primary: Rgb { r: 250, g: 250, b: 252 },
            bg_secondary: Rgb { r: 241, g: 243, b: 247 },
            bg_card: Rgb { r: 255, g: 255, b: 255 },
            bg_elevated: Rgb { r: 248, g: 249, b: 251 },
            accent: Rgb { r: 79, g: 70, b: 229 },
            text_primary: Rgb { r: 17, g: 24, b: 39 },
            text_secondary: Rgb { r: 75, g: 85, b: 99 },
            text_tertiary: Rgb { r: 156, g: 163, b: 175 },
            success: Rgb { r: 16, g: 185, b: 129 },
            warning: Rgb { r: 245, g: 158, b: 11 },
            danger: Rgb { r: 239, g: 68, b: 68 },
            border: Rgb { r: 229, g: 231, b: 235 },
        }
    }
}

/// The shade of a zebra-striped row: each channel of `c` darkened by 3, stopping
/// at 0.
pub fn darker_row(c: Rgb) -> (r: Rgb)
    ensures
        r.r == if c.r >= 3 { c.r - 3 } else { 0 },
        r.g == if c.g >= 3 { c.g - 3 } else { 0 },
        r.b == if c.b >= 3 { c.b - 3 } else { 0 },
{
    Rgb { r: c.r.saturating_sub(3), g: c.g.saturating_sub(3), b: c.b.saturating_sub(3) }
}

/// The button that selects a theme shows this icon.
pub open spec fn theme_icon_spec(mode: ThemeMode) -> Seq<char> {
    match mode {
        ThemeMode::Dark => "\u{1f319}"@,
        ThemeMode::Midnight => "\u{1f303}"@,
        ThemeMode::Nord => "\u{2744}"@,
        ThemeMode::Light => "\u{2600}"@,
    }
}

/// The icon of the button that selects `mode`.
pub fn theme_icon(mode: ThemeMode) -> (icon: String)
    ensures
        icon@ == theme_icon_spec(mode),
{
    match mode {
        ThemeMode::Dark => String::from_str("\u{1f319}"),
        ThemeMode::Midnight => String::from_str("\u{1f303}"),
        ThemeMode::Nord => String::from_str("\u{2744}"),
        ThemeMode::Light => String::from_str("\u{2600}"),
    }
}

/// The theme buttons in the order they are shown.
pub fn selectable_themes() -> (modes: Vec<ThemeMode>)
    ensures
        modes@ == seq![ThemeMode::Dark, ThemeMode::Midnight, ThemeMode::Nord, ThemeMode::Light],
{
    let mut modes: Vec<ThemeMode> = Vec::new();
    modes.push(ThemeMode::Dark);
    modes.push(ThemeMode::Midnight);
    modes.push(ThemeMode::Nord);
    modes.push(ThemeMode::Light);
    modes
}

} // verus!
